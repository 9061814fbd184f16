//! A hop on the path, and what the last sweep saw of it.
use vstd::prelude::*;

use crate::address::Ipv4Address;
use crate::command::{selected_mode, ProbeConfig, ProbeMode};
use crate::stats::ProbeStatistics;

verus! {

/// What is known of the hop that a time to live reaches.
#[derive(Debug, Clone, PartialEq, Eq)]
pub struct HopReport {
    pub ttl: u8,
    pub host: Option<Ipv4Address>,
    pub statistics: ProbeStatistics,
    pub sweep_sent: u16,
    pub sweep_received: u16,
}

/// A `HopReport`, with the sequence of its round-trip times.
#[verifier::ext_equal]
pub struct HopState {
    pub ttl: u8,
    pub host: Option<Ipv4Address>,
    pub sent: nat,
    pub rtts: Seq<u128>,
    pub sweep_sent: u16,
    pub sweep_received: u16,
}

impl View for HopReport {
    type V = HopState;

    open spec fn view(&self) -> HopState {
        HopState {
            ttl: self.ttl,
            host: self.host,
            sent: self.statistics.sent as nat,
            rtts: self.statistics.rtts@,
            sweep_sent: self.sweep_sent,
            sweep_received: self.sweep_received,
        }
    }
}

/// The states of the hops that `reports` describe.
pub open spec fn states(reports: Seq<HopReport>) -> Seq<HopState> {
    reports.map_values(|report: HopReport| report@)
}

impl HopState {
    /// A hop of which nothing is known.
    pub open spec fn fresh(ttl: u8) -> HopState {
        HopState {
            ttl,
            host: None,
            sent: 0,
            rtts: Seq::empty(),
            sweep_sent: 0,
            sweep_received: 0,
        }
    }

    /// The hop at the start of a sweep.
    pub open spec fn begun(self) -> HopState {
        HopState { sweep_sent: 0, sweep_received: 0, ..self }
    }

    /// The hop after one more probe.
    pub open spec fn probed(self) -> HopState {
        HopState {
            sent: self.sent + 1,
            sweep_sent: (self.sweep_sent + 1) as u16,
            ..self
        }
    }

    /// The hop after one more reply. The first host to reply is the hop's host.
    pub open spec fn replied(self, source_ip: Ipv4Address, rtt_nanos: u128) -> HopState {
        HopState {
            host: if self.host is None {
                Some(source_ip)
            } else {
                self.host
            },
            rtts: self.rtts.push(rtt_nanos),
            sweep_received: (self.sweep_received + 1) as u16,
            ..self
        }
    }

    /// The host, or a star for none.
    pub open spec fn label(self) -> Seq<char> {
        match self.host {
            Some(ip) => ip.dotted(),
            None => "*"@,
        }
    }

    /// Some probe of the sweep went unanswered.
    pub open spec fn had_loss(self) -> bool {
        self.sweep_sent > self.sweep_received
    }

    /// The sweep probed the hop, and each probe was answered.
    pub open spec fn fully_replied(self) -> bool {
        self.sweep_sent > 0 && self.sweep_sent == self.sweep_received
    }
}

impl HopReport {
    /// A hop of which nothing is known.
    pub fn new(ttl: u8) -> (report: Self)
        ensures
            report@ == HopState::fresh(ttl),
    {
        HopReport {
            ttl,
            host: None,
            statistics: ProbeStatistics::default(),
            sweep_sent: 0,
            sweep_received: 0,
        }
    }

    /// Starts a sweep.
    pub fn begin_sweep(&mut self)
        ensures
            final(self)@ == old(self)@.begun(),
    {
        self.sweep_sent = 0;
        self.sweep_received = 0;
    }

    /// Counts a probe.
    pub fn record_probe_sent(&mut self)
        requires
            old(self).sweep_sent < u16::MAX,
            old(self).statistics.sent < u64::MAX,
        ensures
            final(self)@ == old(self)@.probed(),
    {
        self.sweep_sent = self.sweep_sent + 1;
        self.statistics.record_probe_sent();
    }

    /// Takes note of a reply, of the host that sent it, and of the time it took.
    pub fn record_reply(&mut self, source_ip: Ipv4Address, rtt_nanos: u128)
        requires
            old(self).sweep_received < u16::MAX,
        ensures
            final(self)@ == old(self)@.replied(source_ip, rtt_nanos),
    {
        if self.host.is_none() {
            self.host = Some(source_ip);
        }
        self.sweep_received = self.sweep_received + 1;
        self.statistics.record_reply(rtt_nanos);
    }

    /// The host, or a star for none.
    pub fn host_label(&self) -> (label: String)
        ensures
            label@ == self@.label(),
    {
        match self.host {
            Some(ip) => ip.to_text(),
            None => "*".to_owned(),
        }
    }

    /// Whether some probe of the sweep went unanswered.
    pub fn sweep_had_loss(&self) -> (loss: bool)
        ensures
            loss == self@.had_loss(),
    {
        self.sweep_sent > self.sweep_received
    }

    /// Whether the sweep probed the hop and each probe was answered.
    pub fn sweep_fully_replied(&self) -> (full: bool)
        ensures
            full == self@.fully_replied(),
    {
        self.sweep_sent > 0 && self.sweep_sent == self.sweep_received
    }
}

/// The hops that are probed. `discovered` is the time to live at which the
/// target was found.
pub open spec fn hops_of(mode: ProbeMode, max_ttl: u8, discovered: Option<u8>) -> Seq<HopState> {
    match mode {
        ProbeMode::AutoTtl => seq![HopState::fresh(discovered->0)],
        ProbeMode::SingleTtl(ttl) => seq![HopState::fresh(ttl)],
        ProbeMode::Trace => Seq::new(max_ttl as nat, |i: int| HopState::fresh((i + 1) as u8)),
    }
}

/// The hops that are probed, none of them known yet. Where the target alone is
/// probed, `discovered` is the time to live at which it was found.
pub fn prepare_reports(config: &ProbeConfig, discovered: Option<u8>) -> (reports: Vec<HopReport>)
    requires
        config.mode() == ProbeMode::AutoTtl ==> discovered is Some,
    ensures
        states(reports@) == hops_of(config.mode(), config.max_ttl, discovered),
{
    let mut reports: Vec<HopReport> = Vec::new();
    match selected_mode(config) {
        ProbeMode::AutoTtl => {
            reports.push(HopReport::new(discovered.unwrap()));
        },
        ProbeMode::SingleTtl(ttl) => {
            reports.push(HopReport::new(ttl));
        },
        ProbeMode::Trace => {
            let mut ttl: u8 = 0;
            while ttl < config.max_ttl
                invariant
                    ttl <= config.max_ttl,
                    states(reports@) == Seq::new(ttl as nat, |i: int| HopState::fresh((i + 1) as u8)),
                decreases config.max_ttl - ttl,
            {
                let ghost before: Seq<HopState> = states(reports@);
                ttl = ttl + 1;
                reports.push(HopReport::new(ttl));
                assert(states(reports@) =~= before.push(HopState::fresh(ttl)));
                assert(states(reports@) =~= Seq::new(
                    ttl as nat,
                    |i: int| HopState::fresh((i + 1) as u8),
                ));
            }
        },
    }
    assert(states(reports@) =~= hops_of(config.mode(), config.max_ttl, discovered));
    reports
}

/// Something that stands for a hop, whose host may be known.
pub trait OnPath {
    /// The host, if it is known.
    spec fn known_host(&self) -> Option<Ipv4Address>;

    /// The host, if it is known.
    fn host(&self) -> (host: Option<Ipv4Address>)
        ensures
            host == self.known_host(),
    ;
}

impl OnPath for HopReport {
    open spec fn known_host(&self) -> Option<Ipv4Address> {
        self@.host
    }

    fn host(&self) -> (host: Option<Ipv4Address>) {
        self.host
    }
}

/// The hosts of the hops that `hops` stand for.
pub open spec fn hosts<T: OnPath>(hops: Seq<T>) -> Seq<Option<Ipv4Address>> {
    hops.map_values(|hop: T| hop.known_host())
}

/// How many of `hosts` there are up to and with the first that is the target:
/// all of them, if there is none.
pub open spec fn reach(hosts: Seq<Option<Ipv4Address>>, target: Ipv4Address) -> nat
    decreases hosts.len(),
{
    if hosts.len() == 0 {
        0
    } else if hosts[0] == Some(target) {
        1
    } else {
        1 + reach(hosts.skip(1), target)
    }
}

/// How many of `hops` there are up to and with the target.
pub fn reach_of<T: OnPath>(hops: &[T], target: Ipv4Address) -> (n: usize)
    ensures
        n == reach(hosts(hops@), target),
        n <= hops.len(),
{
    let mut i: usize = 0;
    let ghost known: Seq<Option<Ipv4Address>> = hosts(hops@);
    assert(known.skip(0) =~= known);
    while i < hops.len()
        invariant
            i <= hops.len(),
            known == hosts(hops@),
            reach(known, target) == i + reach(known.skip(i as int), target),
        decreases hops.len() - i,
    {
        assert(known.skip(i as int)[0] == hops@[i as int].known_host());
        match hops[i].host() {
            Some(ip) => if ip == target {
                return i + 1;
            },
            None => {},
        }
        assert(known.skip(i as int).skip(1) =~= known.skip(i + 1));
        i = i + 1;
    }
    i
}

/// Drops the hops behind the target.
pub fn truncate_after_target(reports: &mut Vec<HopReport>, target: Ipv4Address)
    ensures
        final(reports)@ == old(reports)@.take(reach(hosts(old(reports)@), target) as int),
{
    let n: usize = reach_of(reports.as_slice(), target);
    reports.truncate(n);
}

/// The hops that stay when those behind the target are dropped end with the
/// target, hold it nowhere else, and are all of them if no hop is the target.
pub proof fn law_reach_ends_with_target(hosts: Seq<Option<Ipv4Address>>, target: Ipv4Address)
    ensures
        reach(hosts, target) <= hosts.len(),
        forall|i: int| 0 <= i < reach(hosts, target) - 1 ==> #[trigger] hosts[i] != Some(target),
        hosts.contains(Some(target)) ==> reach(hosts, target) > 0 && hosts[reach(hosts, target) - 1]
            == Some(target),
        !hosts.contains(Some(target)) ==> reach(hosts, target) == hosts.len(),
    decreases hosts.len(),
{
    if hosts.len() > 0 && hosts[0] != Some(target) {
        let rest = hosts.skip(1);
        law_reach_ends_with_target(rest, target);
        assert forall|i: int| 0 <= i < reach(hosts, target) - 1 implies #[trigger] hosts[i] != Some(
            target,
        ) by {
            if i > 0 {
                assert(rest[i - 1] == hosts[i]);
            }
        }
        if hosts.contains(Some(target)) {
            let i = choose|i: int| 0 <= i < hosts.len() && hosts[i] == Some(target);
            assert(rest[i - 1] == hosts[i]);
        } else if rest.contains(Some(target)) {
            let i = choose|i: int| 0 <= i < rest.len() && rest[i] == Some(target);
            assert(hosts[i + 1] == rest[i]);
        }
    }
}

/// Dropping the hops behind the target a second time drops nothing.
pub proof fn law_truncation_is_idempotent<T: OnPath>(hops: Seq<T>, target: Ipv4Address)
    ensures
        ({
            let kept = hops.take(reach(hosts(hops), target) as int);
            kept.take(reach(hosts(kept), target) as int) == kept
        }),
{
    let n = reach(hosts(hops), target);
    let kept = hops.take(n as int);
    let m = reach(hosts(kept), target);
    law_reach_ends_with_target(hosts(hops), target);
    law_reach_ends_with_target(hosts(kept), target);
    assert(hosts(kept) =~= hosts(hops).take(n as int));
    if hosts(kept).contains(Some(target)) {
        assert(hosts(kept)[m - 1] == hosts(hops)[m - 1]);
        assert(m == n);
    }
    assert(kept.take(kept.len() as int) =~= kept);
}

/// A report is seen as what it holds.
pub proof fn law_report_is_seen_as_it_is(reports: Seq<HopReport>, i: int)
    requires
        0 <= i < reports.len(),
    ensures
        states(reports).len() == reports.len(),
        states(reports)[i].ttl == reports[i].ttl,
        states(reports)[i].host == reports[i].host,
        states(reports)[i].sent == reports[i].statistics.sent,
        states(reports)[i].rtts == reports[i].statistics.rtts@,
        states(reports)[i].sweep_sent == reports[i].sweep_sent,
        states(reports)[i].sweep_received == reports[i].sweep_received,
        hosts(reports).len() == reports.len(),
        hosts(reports)[i] == reports[i].host,
{
}

/// A sweep over a hop begins with no probe and no reply, and with all that is
/// known of the hop from before.
pub proof fn law_sweep_begins_anew(hop: HopState)
    ensures
        hop.begun().sweep_sent == 0,
        hop.begun().sweep_received == 0,
        hop.begun().ttl == hop.ttl,
        hop.begun().host == hop.host,
        hop.begun().sent == hop.sent,
        hop.begun().rtts == hop.rtts,
        !hop.begun().had_loss(),
        !hop.begun().fully_replied(),
{
}

/// A probe counts once, in the sweep and in all. Until its reply comes it is
/// lost.
pub proof fn law_probe_counts_once(hop: HopState)
    requires
        hop.sweep_received <= hop.sweep_sent < u16::MAX,
    ensures
        hop.probed().sent == hop.sent + 1,
        hop.probed().sweep_sent == hop.sweep_sent + 1,
        hop.probed().sweep_received == hop.sweep_received,
        hop.probed().ttl == hop.ttl,
        hop.probed().host == hop.host,
        hop.probed().rtts == hop.rtts,
        hop.probed().had_loss(),
        !hop.probed().fully_replied(),
{
}

/// A reply counts once, and adds its time behind the others. It makes up for one
/// probe that was lost without it. The first host to reply is the hop's host for
/// good.
pub proof fn law_reply_counts_once(hop: HopState, source_ip: Ipv4Address, rtt_nanos: u128)
    requires
        hop.sweep_received < hop.sweep_sent,
    ensures
        ({
            let next = hop.replied(source_ip, rtt_nanos);
            &&& next.sent == hop.sent
            &&& next.sweep_sent == hop.sweep_sent
            &&& next.sweep_received == hop.sweep_received + 1
            &&& next.ttl == hop.ttl
            &&& next.host == Some(
                match hop.host {
                    Some(ip) => ip,
                    None => source_ip,
                },
            )
            &&& next.rtts.len() == hop.rtts.len() + 1
            &&& next.rtts.last() == rtt_nanos
            &&& next.rtts.drop_last() == hop.rtts
            &&& next.had_loss() <==> hop.sweep_sent - hop.sweep_received > 1
            &&& next.fully_replied() <==> hop.sweep_sent - hop.sweep_received == 1
        }),
{
    assert(hop.rtts.push(rtt_nanos).drop_last() =~= hop.rtts);
}

/// A hop has lost in a sweep if it counts more probes than replies. It has fully
/// replied if it was probed, and counts as many.
pub proof fn law_loss_is_the_difference(hop: HopState)
    ensures
        hop.had_loss() <==> hop.sweep_sent - hop.sweep_received > 0,
        hop.fully_replied() <==> hop.sweep_sent - hop.sweep_received == 0 && hop.sweep_sent != 0,
{
}

/// A hop is called by the address of its host, and by a star while it has none.
pub proof fn law_hop_is_called_by_its_host(hop: HopState, ip: Ipv4Address)
    ensures
        hop.host == Some(ip) ==> hop.label() == ip.dotted(),
        hop.host is None ==> hop.label() == "*"@,
{
}

/// The hops that are prepared: the one where the target was found, the one that
/// is pinned, or all of them in their order from the first up to the limit.
/// Nothing is known of any of them.
pub proof fn law_hops_are_prepared_in_order(mode: ProbeMode, max_ttl: u8, found: u8, i: int)
    requires
        0 <= i < hops_of(mode, max_ttl, Some(found)).len(),
    ensures
        ({
            let hops = hops_of(mode, max_ttl, Some(found));
            &&& mode is Trace ==> hops.len() == max_ttl && hops[i].ttl == i + 1
            &&& mode is AutoTtl ==> hops.len() == 1 && hops[i].ttl == found
            &&& mode matches ProbeMode::SingleTtl(ttl) ==> hops.len() == 1 && hops[i].ttl == ttl
            &&& hops[i].host is None
            &&& hops[i].sent == 0
            &&& hops[i].rtts.len() == 0
            &&& hops[i].sweep_sent == 0
            &&& hops[i].sweep_received == 0
        }),
{
}

/// There is a hop to be probed for every time to live up to the limit in a trace,
/// and one where the target or a pinned hop alone is probed.
pub proof fn law_no_hop_is_left_out(mode: ProbeMode, max_ttl: u8, discovered: Option<u8>)
    ensures
        hops_of(mode, max_ttl, discovered).len() == if mode is Trace {
            max_ttl as nat
        } else {
            1
        },
        mode !is AutoTtl ==> hops_of(mode, max_ttl, discovered) == hops_of(mode, max_ttl, None),
{
}

} // verus!
