//! What the measurements say: the status of the path, and the events since the
//! last sweep.
use vstd::prelude::*;

use crate::hop::HopReport;
use crate::text::append_decimal;

verus! {

/// The status of the path.
#[derive(Debug, Clone, Copy, PartialEq, Eq)]
pub enum MonitorStatus {
    Calm,
    Spiky,
    Jittery,
    Lossy,
}

/// The word for a status.
pub open spec fn label_text(status: MonitorStatus) -> Seq<char> {
    match status {
        MonitorStatus::Calm => "calm"@,
        MonitorStatus::Spiky => "spiky"@,
        MonitorStatus::Jittery => "jittery"@,
        MonitorStatus::Lossy => "lossy"@,
    }
}

/// What a status means.
pub open spec fn message_text(status: MonitorStatus) -> Seq<char> {
    match status {
        MonitorStatus::Calm => "RTT is stable"@,
        MonitorStatus::Spiky => "latency spike detected"@,
        MonitorStatus::Jittery => "RTT is moving around"@,
        MonitorStatus::Lossy => "packet loss observed"@,
    }
}

impl MonitorStatus {
    /// The word for the status.
    pub fn label(self) -> (label: &'static str)
        ensures
            label@ == label_text(self),
    {
        match self {
            MonitorStatus::Calm => "calm",
            MonitorStatus::Spiky => "spiky",
            MonitorStatus::Jittery => "jittery",
            MonitorStatus::Lossy => "lossy",
        }
    }

    /// What the status means.
    pub fn message(self) -> (message: &'static str)
        ensures
            message@ == message_text(self),
    {
        match self {
            MonitorStatus::Calm => "RTT is stable",
            MonitorStatus::Spiky => "latency spike detected",
            MonitorStatus::Jittery => "RTT is moving around",
            MonitorStatus::Lossy => "packet loss observed",
        }
    }
}

/// What the statistics of a hop's round-trip times amount to.
#[derive(Debug, Clone, Copy, PartialEq, Eq)]
pub struct HopSignals {
    /// The jitter is more than is tolerated.
    pub jittery: bool,
    /// The last round-trip time stands out.
    pub spiky: bool,
    /// The longest round-trip time is noticeably longer than that of the
    /// snapshot of the hop.
    pub worst_risen: bool,
}

/// The last round-trip times of a hop, scaled to how high their blocks are.
#[derive(Debug, Clone, PartialEq, Eq)]
pub struct Trend {
    pub levels: Vec<u8>,
    /// Whether the round-trip times are all the same.
    pub flat: bool,
}

/// The figures of a hop, as they are shown.
#[derive(Debug, Clone, PartialEq, Eq)]
pub struct HopFigures {
    /// The percentage of probes that went unanswered.
    pub loss: String,
    /// Round-trip times in milliseconds, if there are any.
    pub last: Option<String>,
    pub average: Option<String>,
    pub best: Option<String>,
    pub worst: Option<String>,
    pub stdev: Option<String>,
    pub jitter: Option<String>,
    pub trend: Trend,
}

/// A hop, and what was measured of it.
#[derive(Debug, Clone, PartialEq, Eq)]
pub struct MeasuredHop {
    pub report: HopReport,
    pub signals: HopSignals,
    pub figures: HopFigures,
}

/// What is remembered of a hop until the next sweep.
#[derive(Debug, Clone, Copy, PartialEq, Eq)]
pub struct HopEventSnapshot {
    pub ttl: u8,
    pub had_loss_ever: bool,
    pub worst_rtt: Option<u128>,
    pub spiky: bool,
    pub sweep_had_loss: bool,
}

impl MeasuredHop {
    /// Some probe went unanswered.
    pub open spec fn any_lost(self) -> bool {
        crate::stats::any_lost(self.report@.sent, self.report@.rtts.len())
    }

    /// More probes went unanswered than is tolerated.
    pub open spec fn lossy(self) -> bool {
        crate::stats::too_many_lost(self.report@.sent, self.report@.rtts.len())
    }
}

/// The status of the path: the worst that can be said of any hop. Loss is worse
/// than jitter, and jitter is worse than a spike.
pub open spec fn status_of(hops: Seq<MeasuredHop>) -> MonitorStatus {
    if exists|i: int| 0 <= i < hops.len() && (#[trigger] hops[i]).lossy() {
        MonitorStatus::Lossy
    } else if exists|i: int| 0 <= i < hops.len() && (#[trigger] hops[i]).signals.jittery {
        MonitorStatus::Jittery
    } else if exists|i: int| 0 <= i < hops.len() && (#[trigger] hops[i]).signals.spiky {
        MonitorStatus::Spiky
    } else {
        MonitorStatus::Calm
    }
}

/// The status of the path.
pub fn classify_status(hops: &[MeasuredHop]) -> (status: MonitorStatus)
    ensures
        status == status_of(hops@),
{
    let mut lossy: bool = false;
    let mut jittery: bool = false;
    let mut spiky: bool = false;
    let mut i: usize = 0;
    while i < hops.len()
        invariant
            i <= hops.len(),
            lossy == exists|j: int| 0 <= j < i && (#[trigger] hops@[j]).lossy(),
            jittery == exists|j: int| 0 <= j < i && (#[trigger] hops@[j]).signals.jittery,
            spiky == exists|j: int| 0 <= j < i && (#[trigger] hops@[j]).signals.spiky,
        decreases hops.len() - i,
    {
        let signals: HopSignals = hops[i].signals;
        assert(hops@[i as int].signals == signals);
        lossy = lossy || hops[i].report.statistics.is_lossy();
        jittery = jittery || signals.jittery;
        spiky = spiky || signals.spiky;
        i = i + 1;
    }
    if lossy {
        MonitorStatus::Lossy
    } else if jittery {
        MonitorStatus::Jittery
    } else if spiky {
        MonitorStatus::Spiky
    } else {
        MonitorStatus::Calm
    }
}

/// What is remembered of a hop.
pub open spec fn snapshot(hop: MeasuredHop) -> HopEventSnapshot {
    HopEventSnapshot {
        ttl: hop.report.ttl,
        had_loss_ever: hop.any_lost(),
        worst_rtt: crate::stats::longest(hop.report@.rtts),
        spiky: hop.signals.spiky,
        sweep_had_loss: hop.report@.had_loss(),
    }
}

/// What is remembered of each hop until the next sweep.
pub fn capture_event_snapshots(hops: &[MeasuredHop]) -> (snapshots: Vec<HopEventSnapshot>)
    ensures
        snapshots@ == hops@.map_values(|hop: MeasuredHop| snapshot(hop)),
{
    let mut snapshots: Vec<HopEventSnapshot> = Vec::new();
    let mut i: usize = 0;
    while i < hops.len()
        invariant
            i <= hops.len(),
            snapshots@ == hops@.take(i as int).map_values(|hop: MeasuredHop| snapshot(hop)),
        decreases hops.len() - i,
    {
        let hop: &MeasuredHop = &hops[i];
        snapshots.push(
            HopEventSnapshot {
                ttl: hop.report.ttl,
                had_loss_ever: hop.report.statistics.has_lost(),
                worst_rtt: hop.report.statistics.worst_rtt(),
                spiky: hop.signals.spiky,
                sweep_had_loss: hop.report.sweep_had_loss(),
            },
        );
        i = i + 1;
        assert(snapshots@ =~= hops@.take(i as int).map_values(|hop: MeasuredHop| snapshot(hop)));
    }
    assert(hops@.take(hops@.len() as int) =~= hops@);
    snapshots
}

/// The first snapshot of the hop that `ttl` reaches.
pub open spec fn snapshot_of(snapshots: Seq<HopEventSnapshot>, ttl: u8) -> Option<HopEventSnapshot>
    decreases snapshots.len(),
{
    if snapshots.len() == 0 {
        None
    } else if snapshots[0].ttl == ttl {
        Some(snapshots[0])
    } else {
        snapshot_of(snapshots.skip(1), ttl)
    }
}

/// The first snapshot of the hop that `ttl` reaches.
pub fn find_snapshot(snapshots: &[HopEventSnapshot], ttl: u8) -> (found: Option<HopEventSnapshot>)
    ensures
        found == snapshot_of(snapshots@, ttl),
{
    let mut i: usize = 0;
    assert(snapshots@.skip(0) =~= snapshots@);
    while i < snapshots.len()
        invariant
            i <= snapshots.len(),
            snapshot_of(snapshots@, ttl) == snapshot_of(snapshots@.skip(i as int), ttl),
        decreases snapshots.len() - i,
    {
        assert(snapshots@.skip(i as int)[0] == snapshots@[i as int]);
        if snapshots[i].ttl == ttl {
            return Some(snapshots[i]);
        }
        assert(snapshots@.skip(i as int).skip(1) =~= snapshots@.skip(i + 1));
        i = i + 1;
    }
    None
}

/// The events of a hop, in the order in which they are reported.
pub enum EventKind {
    FirstLoss,
    Recovery,
    NewWorst,
    Spike,
}

/// There is a time before and a time now, and it is longer now.
pub open spec fn longer(now: Option<u128>, before: Option<u128>) -> bool {
    now matches Some(now) && (before matches Some(before) && now > before)
}

/// An event has happened, given what was remembered of the hop.
pub open spec fn happened(
    kind: EventKind,
    hop: MeasuredHop,
    previous: Option<HopEventSnapshot>,
) -> bool {
    match kind {
        // A probe went unanswered, and none had before.
        EventKind::FirstLoss => hop.report@.had_loss() && !(previous matches Some(s)
            && s.had_loss_ever),
        // All probes were answered, but not in the sweep before.
        EventKind::Recovery => hop.report@.fully_replied() && (previous matches Some(s)
            && s.sweep_had_loss),
        // The longest round-trip time has become noticeably longer.
        EventKind::NewWorst => hop.figures.worst is Some && hop.signals.worst_risen && (
        previous matches Some(s) && longer(
            crate::stats::longest(hop.report@.rtts),
            s.worst_rtt,
        )),
        // The last round-trip time stands out, which it did not before.
        EventKind::Spike => hop.signals.spiky && (previous matches Some(s) && !s.spiky),
    }
}

/// An event in words.
pub open spec fn event_text(kind: EventKind, hop: MeasuredHop) -> Seq<char> {
    "hop "@ + crate::text::decimal(hop.report.ttl as nat) + match kind {
        EventKind::FirstLoss => " saw its first packet loss"@,
        EventKind::Recovery => " recovered after loss"@,
        EventKind::NewWorst => " set a new worst RTT at "@ + hop.figures.worst->0@ + "ms"@,
        EventKind::Spike => " latency spike detected"@,
    }
}

/// The event in words, if it has happened.
pub open spec fn event_if(
    kind: EventKind,
    hop: MeasuredHop,
    previous: Option<HopEventSnapshot>,
) -> Seq<Seq<char>> {
    if happened(kind, hop, previous) {
        seq![event_text(kind, hop)]
    } else {
        Seq::empty()
    }
}

/// The events of a hop.
pub open spec fn hop_events(hop: MeasuredHop, previous: Option<HopEventSnapshot>) -> Seq<
    Seq<char>,
> {
    event_if(EventKind::FirstLoss, hop, previous) + event_if(EventKind::Recovery, hop, previous)
        + event_if(EventKind::NewWorst, hop, previous) + event_if(EventKind::Spike, hop, previous)
}

/// The events of the hops, one hop after the other.
pub open spec fn events_of(hops: Seq<MeasuredHop>, snapshots: Seq<HopEventSnapshot>) -> Seq<
    Seq<char>,
>
    decreases hops.len(),
{
    if hops.len() == 0 {
        Seq::empty()
    } else {
        events_of(hops.drop_last(), snapshots) + hop_events(
            hops.last(),
            snapshot_of(snapshots, hops.last().report.ttl),
        )
    }
}

/// The start of an event in words.
fn about_hop(ttl: u8) -> (text: String)
    ensures
        text@ == "hop "@ + crate::text::decimal(ttl as nat),
{
    let mut text: String = "hop ".to_owned();
    append_decimal(&mut text, ttl as u64);
    text
}

/// Adds an event.
fn add_event(events: &mut Vec<String>, event: String)
    ensures
        crate::text::texts(final(events)@) == crate::text::texts(old(events)@) + seq![event@],
{
    events.push(event);
    assert(crate::text::texts(events@) =~= crate::text::texts(old(events)@) + seq![event@]);
}

/// Adds the events of a hop.
fn add_hop_events(events: &mut Vec<String>, hop: &MeasuredHop, previous: Option<HopEventSnapshot>)
    ensures
        crate::text::texts(final(events)@) == crate::text::texts(old(events)@) + hop_events(
            *hop,
            previous,
        ),
{
    let ghost before: Seq<Seq<char>> = crate::text::texts(events@);
    let lost_before: bool = match previous {
        Some(s) => s.had_loss_ever,
        None => false,
    };
    if hop.report.sweep_had_loss() && !lost_before {
        let mut event: String = about_hop(hop.report.ttl);
        event.append(" saw its first packet loss");
        add_event(events, event);
    }
    let ghost first: Seq<Seq<char>> = event_if(EventKind::FirstLoss, *hop, previous);
    assert(crate::text::texts(events@) =~= before + first);
    let loss_in_last_sweep: bool = match previous {
        Some(s) => s.sweep_had_loss,
        None => false,
    };
    if hop.report.sweep_fully_replied() && loss_in_last_sweep {
        let mut event: String = about_hop(hop.report.ttl);
        event.append(" recovered after loss");
        add_event(events, event);
    }
    let ghost second: Seq<Seq<char>> = event_if(EventKind::Recovery, *hop, previous);
    assert(crate::text::texts(events@) =~= before + first + second);
    let worst_before: Option<u128> = match previous {
        Some(s) => s.worst_rtt,
        None => None,
    };
    let longer_now: bool = match (hop.report.statistics.worst_rtt(), worst_before) {
        (Some(now), Some(before)) => now > before,
        _ => false,
    };
    match &hop.figures.worst {
        Some(worst) => if hop.signals.worst_risen && longer_now {
            let mut event: String = about_hop(hop.report.ttl);
            event.append(" set a new worst RTT at ");
            event.append(worst.as_str());
            event.append("ms");
            assert(event@ =~= event_text(EventKind::NewWorst, *hop));
            add_event(events, event);
        },
        None => {},
    }
    let ghost third: Seq<Seq<char>> = event_if(EventKind::NewWorst, *hop, previous);
    assert(crate::text::texts(events@) =~= before + first + second + third);
    let calm_before: bool = match previous {
        Some(s) => !s.spiky,
        None => false,
    };
    if hop.signals.spiky && calm_before {
        let mut event: String = about_hop(hop.report.ttl);
        event.append(" latency spike detected");
        add_event(events, event);
    }
    assert(crate::text::texts(events@) =~= before + hop_events(*hop, previous));
}

/// The events since the sweep of which `previous_snapshots` were taken.
pub fn classify_events(hops: &[MeasuredHop], previous_snapshots: &[HopEventSnapshot]) -> (events:
    Vec<String>)
    ensures
        crate::text::texts(events@) == events_of(hops@, previous_snapshots@),
{
    let mut events: Vec<String> = Vec::new();
    let mut i: usize = 0;
    assert(crate::text::texts(events@) =~= Seq::<Seq<char>>::empty());
    while i < hops.len()
        invariant
            i <= hops.len(),
            crate::text::texts(events@) == events_of(hops@.take(i as int), previous_snapshots@),
        decreases hops.len() - i,
    {
        let previous: Option<HopEventSnapshot> = find_snapshot(
            previous_snapshots,
            hops[i].report.ttl,
        );
        add_hop_events(&mut events, &hops[i], previous);
        i = i + 1;
        assert(hops@.take(i as int).drop_last() =~= hops@.take(i - 1));
    }
    assert(hops@.take(hops@.len() as int) =~= hops@);
    events
}

/// How bad a status is.
pub open spec fn severity(status: MonitorStatus) -> int {
    match status {
        MonitorStatus::Calm => 0,
        MonitorStatus::Spiky => 1,
        MonitorStatus::Jittery => 2,
        MonitorStatus::Lossy => 3,
    }
}

/// The status of a path is as bad as the worst of its hops: a hop more leaves it
/// as it is, or makes it as bad as that hop's.
pub proof fn law_status_is_that_of_the_worst_hop(hops: Seq<MeasuredHop>, hop: MeasuredHop)
    ensures
        severity(status_of(hops.push(hop))) == if severity(status_of(hops)) >= severity(
            status_of(seq![hop]),
        ) {
            severity(status_of(hops))
        } else {
            severity(status_of(seq![hop]))
        },
        status_of(Seq::empty()) == MonitorStatus::Calm,
{
    let all = hops.push(hop);
    let n = hops.len() as int;
    assert(all[n] == hop);
    assert(seq![hop][0] == hop);
    assert forall|i: int| 0 <= i < n implies #[trigger] all[i] == hops[i] by {}
    assert forall|i: int| 0 <= i < n implies #[trigger] hops[i] == all[i] by {}
}

/// The status does not depend on the order of the hops.
pub proof fn law_status_ignores_order(hops: Seq<MeasuredHop>, others: Seq<MeasuredHop>)
    ensures
        status_of(hops + others) == status_of(others + hops),
{
    let a = hops + others;
    let b = others + hops;
    assert forall|i: int| 0 <= i < a.len() implies b.contains(#[trigger] a[i]) by {
        if i < hops.len() {
            assert(b[others.len() + i] == a[i]);
        } else {
            assert(b[i - hops.len()] == a[i]);
        }
    }
    assert forall|i: int| 0 <= i < b.len() implies a.contains(#[trigger] b[i]) by {
        if i < others.len() {
            assert(a[hops.len() + i] == b[i]);
        } else {
            assert(a[i - others.len()] == b[i]);
        }
    }
}

/// What is remembered of a hop is found again by its time to live, where no
/// other hop has the same.
pub proof fn law_snapshot_is_found_again(hops: Seq<MeasuredHop>, i: int)
    requires
        0 <= i < hops.len(),
        forall|j: int| 0 <= j < i ==> (#[trigger] hops[j]).report.ttl != hops[i].report.ttl,
    ensures
        snapshot_of(
            hops.map_values(|hop: MeasuredHop| snapshot(hop)),
            hops[i].report.ttl,
        ) == Some(snapshot(hops[i])),
    decreases hops.len(),
{
    let snapshots = hops.map_values(|hop: MeasuredHop| snapshot(hop));
    assert(snapshots[0] == snapshot(hops[0]));
    if i > 0 {
        let rest = hops.skip(1);
        assert(rest[i - 1] == hops[i]);
        assert forall|j: int| 0 <= j < i - 1 implies (#[trigger] rest[j]).report.ttl
            != rest[i - 1].report.ttl by {
            assert(rest[j] == hops[j + 1]);
        }
        law_snapshot_is_found_again(rest, i - 1);
        assert(snapshots.skip(1) =~= rest.map_values(|hop: MeasuredHop| snapshot(hop)));
    }
}

/// Of a hop of which nothing is remembered, only a loss is an event.
pub proof fn law_unknown_hop_only_loses(hop: MeasuredHop)
    ensures
        hop_events(hop, None) == event_if(EventKind::FirstLoss, hop, None),
{
    assert(hop_events(hop, None) =~= event_if(EventKind::FirstLoss, hop, None));
}

/// A first loss is reported once: not of a hop that is remembered to have lost a
/// probe before.
pub proof fn law_first_loss_is_reported_once(before: MeasuredHop, now: MeasuredHop)
    requires
        before.any_lost(),
    ensures
        !happened(EventKind::FirstLoss, now, Some(snapshot(before))),
{
}

/// A hop recovers in the first sweep without a loss after one with a loss, and
/// in no other.
pub proof fn law_recovery_follows_loss(before: MeasuredHop, now: MeasuredHop)
    ensures
        happened(EventKind::Recovery, now, Some(snapshot(before))) == (before.report@.had_loss()
            && now.report@.fully_replied()),
        !(happened(EventKind::Recovery, now, Some(snapshot(before))) && happened(
            EventKind::FirstLoss,
            now,
            Some(snapshot(before)),
        )),
{
}

/// Where nothing has changed of a hop since the last sweep, there is no event,
/// also after a loss. (A loss in the sweep is among the losses of the hop.)
pub proof fn law_steady_hop_is_silent(hop: MeasuredHop)
    requires
        hop.report@.had_loss() ==> hop.any_lost(),
    ensures
        hop_events(hop, Some(snapshot(hop))) == Seq::<Seq<char>>::empty(),
{
    assert(hop_events(hop, Some(snapshot(hop))) =~= Seq::<Seq<char>>::empty());
}

/// Where nothing has changed of any hop since the snapshots were taken, and no
/// two hops have the same time to live, there is no event. (The losses of a sweep
/// are among the losses of their hop.)
pub proof fn law_steady_path_is_silent(hops: Seq<MeasuredHop>)
    requires
        forall|i: int, j: int|
            0 <= i < j < hops.len() ==> (#[trigger] hops[i]).report.ttl != (
            #[trigger] hops[j]).report.ttl,
        forall|i: int|
            0 <= i < hops.len() ==> ((#[trigger] hops[i]).report@.had_loss()
                ==> hops[i].any_lost()),
    ensures
        events_of(hops, hops.map_values(|hop: MeasuredHop| snapshot(hop))) == Seq::<
            Seq<char>,
        >::empty(),
{
    let n = hops.len();
    lemma_no_events_of_prefix(hops, n);
    assert(hops.take(n as int) =~= hops);
}

proof fn lemma_no_events_of_prefix(hops: Seq<MeasuredHop>, n: nat)
    requires
        n <= hops.len(),
        forall|i: int, j: int|
            0 <= i < j < hops.len() ==> (#[trigger] hops[i]).report.ttl != (
            #[trigger] hops[j]).report.ttl,
        forall|i: int|
            0 <= i < hops.len() ==> ((#[trigger] hops[i]).report@.had_loss()
                ==> hops[i].any_lost()),
    ensures
        events_of(
            hops.take(n as int),
            hops.map_values(|hop: MeasuredHop| snapshot(hop)),
        ) == Seq::<Seq<char>>::empty(),
    decreases n,
{
    if n > 0 {
        let last = hops[n - 1];
        lemma_no_events_of_prefix(hops, (n - 1) as nat);
        assert(hops.take(n as int).drop_last() =~= hops.take(n - 1));
        law_snapshot_is_found_again(hops, n - 1);
        law_steady_hop_is_silent(last);
        assert(hops.take(n as int).last() == last);
    }
}

/// What the status means. The path is lossy if some hop lost more than one in
/// twenty of its probes. Else it is jittery if some hop is, else spiky if some
/// hop is, and else calm.
pub proof fn law_status_tells_what_is_wrong(hops: Seq<MeasuredHop>)
    ensures
        ({
            let lossy = exists|i: int|
                0 <= i < hops.len() && 20 * ((#[trigger] hops[i]).report.statistics.sent
                    - hops[i].report.statistics.rtts@.len()) > hops[i].report.statistics.sent;
            let jittery = exists|i: int|
                0 <= i < hops.len() && (#[trigger] hops[i]).signals.jittery;
            let spiky = exists|i: int| 0 <= i < hops.len() && (#[trigger] hops[i]).signals.spiky;
            &&& status_of(hops) is Lossy <==> lossy
            &&& status_of(hops) is Jittery <==> !lossy && jittery
            &&& status_of(hops) is Spiky <==> !lossy && !jittery && spiky
            &&& status_of(hops) is Calm <==> !lossy && !jittery && !spiky
        }),
{
    assert forall|i: int| 0 <= i < hops.len() implies ((#[trigger] hops[i]).lossy() <==> 20 * (
    hops[i].report.statistics.sent - hops[i].report.statistics.rtts@.len())
        > hops[i].report.statistics.sent) by {}
}

/// What each status is called, and how it is put in words.
pub proof fn law_status_is_put_in_words()
    ensures
        label_text(MonitorStatus::Calm) == "calm"@,
        label_text(MonitorStatus::Spiky) == "spiky"@,
        label_text(MonitorStatus::Jittery) == "jittery"@,
        label_text(MonitorStatus::Lossy) == "lossy"@,
        message_text(MonitorStatus::Calm) == "RTT is stable"@,
        message_text(MonitorStatus::Spiky) == "latency spike detected"@,
        message_text(MonitorStatus::Jittery) == "RTT is moving around"@,
        message_text(MonitorStatus::Lossy) == "packet loss observed"@,
{
}

/// What is remembered of a hop: its time to live, whether it ever lost a probe,
/// its longest round-trip time, whether the last one stood out, and whether it
/// lost a probe in the sweep.
pub proof fn law_snapshot_remembers_the_hop(hop: MeasuredHop)
    ensures
        snapshot(hop).ttl == hop.report.ttl,
        snapshot(hop).had_loss_ever <==> hop.report.statistics.sent
            > hop.report.statistics.rtts@.len(),
        hop.report.statistics.rtts@.len() == 0 ==> snapshot(hop).worst_rtt is None,
        hop.report.statistics.rtts@.len() > 0 ==> (snapshot(hop).worst_rtt matches Some(worst)
            && hop.report.statistics.rtts@.contains(worst)),
        snapshot(hop).worst_rtt matches Some(worst) ==> forall|i: int|
            0 <= i < hop.report.statistics.rtts@.len() ==> #[trigger] hop.report.statistics.rtts@[i]
                <= worst,
        snapshot(hop).spiky == hop.signals.spiky,
        snapshot(hop).sweep_had_loss <==> hop.report.sweep_sent > hop.report.sweep_received,
{
    crate::stats::law_extremes_bound_all_times(hop.report.statistics.rtts@);
}

/// The snapshot of a hop is the first that has its time to live. There is none
/// only if no snapshot has it.
pub proof fn law_snapshot_is_the_first_of_its_hop(snapshots: Seq<HopEventSnapshot>, ttl: u8)
    ensures
        snapshot_of(snapshots, ttl) is None <==> forall|i: int|
            0 <= i < snapshots.len() ==> (#[trigger] snapshots[i]).ttl != ttl,
        snapshot_of(snapshots, ttl) matches Some(found) ==> exists|i: int|
            0 <= i < snapshots.len() && #[trigger] snapshots[i] == found && found.ttl == ttl && (
            forall|j: int| 0 <= j < i ==> (#[trigger] snapshots[j]).ttl != ttl),
    decreases snapshots.len(),
{
    if snapshots.len() > 0 && snapshots[0].ttl != ttl {
        let rest = snapshots.skip(1);
        law_snapshot_is_the_first_of_its_hop(rest, ttl);
        assert forall|i: int| 0 <= i < rest.len() implies #[trigger] rest[i] == snapshots[i + 1] by {}
        match snapshot_of(rest, ttl) {
            Some(found) => {
                let i = choose|i: int|
                    0 <= i < rest.len() && #[trigger] rest[i] == found && found.ttl == ttl && (
                    forall|j: int| 0 <= j < i ==> (#[trigger] rest[j]).ttl != ttl);
                assert(snapshots[i + 1] == found);
                assert forall|j: int| 0 <= j < i + 1 implies (#[trigger] snapshots[j]).ttl
                    != ttl by {
                    if j > 0 {
                        assert(rest[j - 1] == snapshots[j]);
                    }
                }
            },
            None => {
                assert forall|i: int| 0 <= i < snapshots.len() implies (
                #[trigger] snapshots[i]).ttl != ttl by {
                    if i > 0 {
                        assert(rest[i - 1] == snapshots[i]);
                    }
                }
            },
        }
    }
}

/// The events of a hop between two sweeps, `before` and `now`. A first loss is
/// reported where a probe was lost now and none ever before; a recovery, where
/// all probes were answered now and not all before; a new worst time, where the
/// longest time is longer now, and noticeably so; and a spike, where the last time
/// stands out now and did not before.
pub proof fn law_events_tell_what_has_changed(before: MeasuredHop, now: MeasuredHop)
    ensures
        ({
            let previous = Some(snapshot(before));
            let worst_before = crate::stats::longest(before.report.statistics.rtts@);
            let worst_now = crate::stats::longest(now.report.statistics.rtts@);
            &&& happened(EventKind::FirstLoss, now, previous) <==> now.report.sweep_sent
                > now.report.sweep_received && before.report.statistics.sent
                <= before.report.statistics.rtts@.len()
            &&& happened(EventKind::Recovery, now, previous) <==> now.report.sweep_sent > 0
                && now.report.sweep_sent == now.report.sweep_received && before.report.sweep_sent
                > before.report.sweep_received
            &&& happened(EventKind::NewWorst, now, previous) <==> now.figures.worst is Some
                && now.signals.worst_risen && worst_before is Some && worst_now is Some
                && worst_now->0 > worst_before->0
            &&& happened(EventKind::Spike, now, previous) <==> now.signals.spiky
                && !before.signals.spiky
        }),
{
}

/// An event of a hop is reported exactly if it has happened: first a first loss,
/// then a recovery, a new worst time and a spike. Each names its hop.
pub proof fn law_events_are_reported_in_order(
    hop: MeasuredHop,
    previous: Option<HopEventSnapshot>,
)
    ensures
        ({
            let about = "hop "@ + crate::text::decimal(hop.report.ttl as nat);
            let loss = if happened(EventKind::FirstLoss, hop, previous) {
                1int
            } else {
                0
            };
            let recovery = if happened(EventKind::Recovery, hop, previous) {
                1int
            } else {
                0
            };
            let worst = if happened(EventKind::NewWorst, hop, previous) {
                1int
            } else {
                0
            };
            let spike = if happened(EventKind::Spike, hop, previous) {
                1int
            } else {
                0
            };
            let events = hop_events(hop, previous);
            &&& events.len() == loss + recovery + worst + spike
            &&& loss == 1 ==> events[0] == about + " saw its first packet loss"@
            &&& recovery == 1 ==> events[loss] == about + " recovered after loss"@
            &&& worst == 1 ==> events[loss + recovery] == about + (" set a new worst RTT at "@
                + hop.figures.worst->0@ + "ms"@)
            &&& spike == 1 ==> events[loss + recovery + worst] == about
                + " latency spike detected"@
        }),
{
}

/// A hop that is remembered without any loss so far, and loses a probe in this
/// sweep, is reported, and so is one of which nothing is remembered.
pub proof fn law_first_loss_is_reported(before: MeasuredHop, now: MeasuredHop)
    requires
        now.report.sweep_sent > now.report.sweep_received,
        before.report.statistics.sent == before.report.statistics.rtts@.len(),
    ensures
        ({
            let event = "hop "@ + crate::text::decimal(now.report.ttl as nat)
                + " saw its first packet loss"@;
            &&& hop_events(now, Some(snapshot(before))).contains(event)
            &&& hop_events(now, None).contains(event)
        }),
{
    law_events_tell_what_has_changed(before, now);
    law_events_are_reported_in_order(now, Some(snapshot(before)));
    law_events_are_reported_in_order(now, None);
    let event = "hop "@ + crate::text::decimal(now.report.ttl as nat)
        + " saw its first packet loss"@;
    assert(hop_events(now, Some(snapshot(before)))[0] == event);
    assert(hop_events(now, None)[0] == event);
}

/// The events of hops come hop by hop, each measured against the snapshot that
/// has its time to live.
pub proof fn law_events_come_hop_by_hop(
    hops: Seq<MeasuredHop>,
    hop: MeasuredHop,
    snapshots: Seq<HopEventSnapshot>,
)
    ensures
        events_of(Seq::empty(), snapshots) == Seq::<Seq<char>>::empty(),
        events_of(hops.push(hop), snapshots) == events_of(hops, snapshots) + hop_events(
            hop,
            snapshot_of(snapshots, hop.report.ttl),
        ),
{
    assert(hops.push(hop).drop_last() =~= hops);
}

/// Which events have happened is decided by what is remembered of the hop, and
/// where nothing is remembered only a loss is an event.
pub proof fn law_events_go_by_what_is_remembered(hop: MeasuredHop, s: HopEventSnapshot)
    ensures
        happened(EventKind::FirstLoss, hop, Some(s)) <==> hop.report.sweep_sent
            > hop.report.sweep_received && !s.had_loss_ever,
        happened(EventKind::Recovery, hop, Some(s)) <==> hop.report.sweep_sent > 0
            && hop.report.sweep_sent == hop.report.sweep_received && s.sweep_had_loss,
        happened(EventKind::NewWorst, hop, Some(s)) <==> hop.figures.worst is Some
            && hop.signals.worst_risen && s.worst_rtt is Some && hop.report.statistics.rtts@.len()
            > 0 && crate::stats::longest(hop.report.statistics.rtts@)->0 > s.worst_rtt->0,
        happened(EventKind::Spike, hop, Some(s)) <==> hop.signals.spiky && !s.spiky,
        happened(EventKind::FirstLoss, hop, None) <==> hop.report.sweep_sent
            > hop.report.sweep_received,
        !happened(EventKind::Recovery, hop, None),
        !happened(EventKind::NewWorst, hop, None),
        !happened(EventKind::Spike, hop, None),
{
    crate::stats::law_extremes_bound_all_times(hop.report.statistics.rtts@);
}

} // verus!
