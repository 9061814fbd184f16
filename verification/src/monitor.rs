//! The monitor of a continuous run: what is written after each sweep.
use vstd::prelude::*;
use vstd::slice::slice_subrange;

use crate::address::Ipv4Address;
use crate::command::{should_emit_events, should_use_live_refresh, ProbeConfig};
use crate::hop::{reach_of, OnPath};
use crate::render::render_monitor_block;
use crate::status::{capture_event_snapshots, classify_events, HopEventSnapshot, MeasuredHop};
use crate::text::{append_decimal, count_lines};

verus! {

/// What is remembered between two sweeps.
#[derive(Debug)]
pub struct Monitor {
    /// How many lines the last table took, if it is to be redrawn in place.
    pub previous_lines: Option<u16>,
    pub previous_snapshots: Vec<HopEventSnapshot>,
}

impl OnPath for MeasuredHop {
    open spec fn known_host(&self) -> Option<Ipv4Address> {
        self.report@.host
    }

    fn host(&self) -> (host: Option<Ipv4Address>) {
        self.report.host
    }
}

/// The hops up to and with the target.
pub open spec fn visible(hops: Seq<MeasuredHop>, target: Ipv4Address) -> Seq<MeasuredHop> {
    hops.take(crate::hop::reach(crate::hop::hosts(hops), target) as int)
}

/// The control sequence that goes up to the first of the last `lines` lines and
/// clears the screen from there on.
pub open spec fn erasure(lines: u16) -> Seq<char> {
    "\x1b["@ + crate::text::decimal(lines as nat) + "A\x1b[J"@
}

/// The lines that report events.
pub open spec fn event_lines(events: Seq<Seq<char>>) -> Seq<char>
    decreases events.len(),
{
    if events.len() == 0 {
        Seq::empty()
    } else {
        event_lines(events.drop_last()) + "Event: "@ + events.last() + "\n"@
    }
}

/// What is written where the table is redrawn in place.
pub open spec fn live_frame(previous_lines: Option<u16>, hops: Seq<MeasuredHop>) -> Seq<char> {
    (match previous_lines {
        Some(lines) => erasure(lines),
        None => Seq::empty(),
    }) + crate::render::block_of(hops)
}

/// What is written where one table follows the other.
pub open spec fn scrolled_frame(hops: Seq<MeasuredHop>, events: Seq<Seq<char>>) -> Seq<char> {
    "\n"@ + crate::render::block_of(hops) + event_lines(events)
}

/// The hops up to and with the target.
pub fn visible_hops(hops: &[MeasuredHop], target: Ipv4Address) -> (shown: &[MeasuredHop])
    ensures
        shown@ == visible(hops@, target),
{
    let n: usize = reach_of(hops, target);
    let shown: &[MeasuredHop] = slice_subrange(hops, 0, n);
    assert(shown@ =~= visible(hops@, target));
    shown
}

/// Appends the lines that report events.
fn append_events(out: &mut String, events: &Vec<String>)
    ensures
        final(out)@ == old(out)@ + event_lines(crate::text::texts(events@)),
{
    let mut i: usize = 0;
    let ghost texts: Seq<Seq<char>> = crate::text::texts(events@);
    assert(out@ =~= old(out)@ + event_lines(texts.take(0)));
    while i < events.len()
        invariant
            i <= events.len(),
            texts == crate::text::texts(events@),
            out@ == old(out)@ + event_lines(texts.take(i as int)),
        decreases events.len() - i,
    {
        out.append("Event: ");
        out.append(events[i].as_str());
        out.append("\n");
        i = i + 1;
        assert(texts.take(i as int).drop_last() =~= texts.take(i - 1));
        assert(out@ =~= old(out)@ + event_lines(texts.take(i as int)));
    }
    assert(texts.take(texts.len() as int) =~= texts);
}

/// What is written after a sweep of which `hops` were measured, where
/// `previous_lines` and `snapshots` are remembered of the one before.
pub open spec fn frame_text(
    config: ProbeConfig,
    previous_lines: Option<u16>,
    snapshots: Seq<HopEventSnapshot>,
    hops: Seq<MeasuredHop>,
) -> Seq<char> {
    let shown = visible(hops, config.resolved_target);
    if config.is_live() {
        live_frame(previous_lines, shown)
    } else if config.continuous {
        scrolled_frame(shown, crate::status::events_of(shown, snapshots))
    } else {
        scrolled_frame(shown, Seq::empty())
    }
}

impl Monitor {
    /// The monitor before the first sweep.
    pub fn new() -> (monitor: Self)
        ensures
            monitor.previous_lines is None,
            monitor.previous_snapshots@ == Seq::<HopEventSnapshot>::empty(),
    {
        Monitor { previous_lines: None, previous_snapshots: Vec::new() }
    }

    /// What is to be written after a sweep. `hops` is what was measured of all
    /// hops.
    pub fn frame(&mut self, config: &ProbeConfig, hops: &[MeasuredHop]) -> (text: String)
        ensures
            ({
                let shown = visible(hops@, config.resolved_target);
                &&& text@ == if config.is_live() {
                    live_frame(old(self).previous_lines, shown)
                } else {
                    scrolled_frame(
                        shown,
                        if config.continuous {
                            crate::status::events_of(shown, old(self).previous_snapshots@)
                        } else {
                            Seq::empty()
                        },
                    )
                }
                &&& final(self).previous_snapshots@ == shown.map_values(
                    |hop: MeasuredHop| crate::status::snapshot(hop),
                )
                &&& final(self).previous_lines == if config.is_live() {
                    Some(
                        (crate::text::line_count(crate::render::block_of(shown)) % 0x10000) as u16,
                    )
                } else {
                    old(self).previous_lines
                }
            }),
            text@ == frame_text(
                *config,
                old(self).previous_lines,
                old(self).previous_snapshots@,
                hops@,
            ),
    {
        let shown: &[MeasuredHop] = visible_hops(hops, config.resolved_target);
        let block: String = render_monitor_block(shown);
        let events: Vec<String> = if should_emit_events(config) {
            classify_events(shown, &self.previous_snapshots)
        } else {
            Vec::new()
        };
        let mut text: String = String::new();
        if should_use_live_refresh(config) {
            match self.previous_lines {
                Some(lines) => {
                    text.append("\x1b[");
                    append_decimal(&mut text, lines as u64);
                    text.append("A\x1b[J");
                },
                None => {},
            }
            text.append(block.as_str());
            self.previous_lines = Some(count_lines(block.as_str()));
            assert(text@ =~= live_frame(old(self).previous_lines, shown@));
        } else {
            text.append("\n");
            text.append(block.as_str());
            append_events(&mut text, &events);
            proof {
                if !config.continuous {
                    assert(crate::text::texts(events@) =~= Seq::<Seq<char>>::empty());
                }
            }
            assert(text@ =~= scrolled_frame(shown@, crate::text::texts(events@)));
        }
        self.previous_snapshots = capture_event_snapshots(shown);
        text
    }
}

/// A live frame takes the place of the one before it: it goes up by exactly the
/// lines that the table before it took, one for each hop that was shown and two
/// more. (There are at most 255 hops, and the figures have no line ends.)
pub proof fn law_live_frame_replaces_the_last(
    before: Seq<MeasuredHop>,
    now: Seq<MeasuredHop>,
    lines: u16,
)
    requires
        before.len() <= 255,
        forall|i: int|
            0 <= i < before.len() ==> crate::render::figures_are_one_line(#[trigger] before[i]),
        lines == crate::text::line_count(crate::render::block_of(before)) % 0x10000,
    ensures
        live_frame(Some(lines), now) == "\x1b["@ + crate::text::decimal(before.len() + 2)
            + "A\x1b[J"@ + crate::render::block_of(now),
{
    crate::render::law_block_has_a_line_for_each_hop(before);
}

/// No hop behind the target is shown, and the target is, if it is among the
/// hops.
pub proof fn law_visible_hops_end_with_target(hops: Seq<MeasuredHop>, target: Ipv4Address)
    ensures
        visible(hops, target).len() <= hops.len(),
        forall|i: int|
            0 <= i < visible(hops, target).len() - 1 ==> (#[trigger] visible(
                hops,
                target,
            )[i]).report.host != Some(target),
        (exists|i: int| 0 <= i < hops.len() && (#[trigger] hops[i]).report.host == Some(target))
            ==> visible(hops, target).len() > 0 && visible(hops, target).last().report.host == Some(
            target,
        ),
{
    let hosts = crate::hop::hosts(hops);
    crate::hop::law_reach_ends_with_target(hosts, target);
    assert forall|i: int| 0 <= i < visible(hops, target).len() - 1 implies (#[trigger] visible(
        hops,
        target,
    )[i]).report.host != Some(target) by {
        assert(hosts[i] != Some(target));
    }
    if exists|i: int| 0 <= i < hops.len() && (#[trigger] hops[i]).report.host == Some(target) {
        let i = choose|i: int|
            0 <= i < hops.len() && (#[trigger] hops[i]).report.host == Some(target);
        assert(hosts[i] == Some(target));
    }
}

/// The first table of a live run stands alone. Each later one comes behind the
/// control sequence that goes up by the lines of the one before and clears the
/// screen from there.
pub proof fn law_live_frame_goes_up_first(hops: Seq<MeasuredHop>, lines: u16)
    ensures
        live_frame(None, hops) == crate::render::block_of(hops),
        live_frame(Some(lines), hops) == "\x1b["@ + crate::text::decimal(lines as nat) + "A\x1b[J"@
            + crate::render::block_of(hops),
{
    assert(live_frame(None, hops) =~= crate::render::block_of(hops));
}

/// A table that follows another comes behind an empty line, and each event
/// follows it in a line of its own, in the order of the events.
pub proof fn law_events_follow_the_table(
    hops: Seq<MeasuredHop>,
    events: Seq<Seq<char>>,
    event: Seq<char>,
)
    ensures
        scrolled_frame(hops, Seq::empty()) == "\n"@ + crate::render::block_of(hops),
        scrolled_frame(hops, events.push(event)) == scrolled_frame(hops, events) + ("Event: "@
            + event + "\n"@),
{
    assert(events.push(event).drop_last() =~= events);
    assert(scrolled_frame(hops, Seq::empty()) =~= "\n"@ + crate::render::block_of(hops));
    assert(scrolled_frame(hops, events.push(event)) =~= scrolled_frame(hops, events) + ("Event: "@
        + event + "\n"@));
}

/// The hops that are shown are the first ones, and no hop is shown in another's
/// place.
pub proof fn law_visible_hops_are_the_first(hops: Seq<MeasuredHop>, target: Ipv4Address, i: int)
    requires
        0 <= i < visible(hops, target).len(),
    ensures
        i < hops.len(),
        visible(hops, target)[i] == hops[i],
        (forall|j: int| 0 <= j < hops.len() ==> (#[trigger] hops[j]).report.host != Some(target))
            ==> visible(hops, target) == hops,
{
    let hosts = crate::hop::hosts(hops);
    crate::hop::law_reach_ends_with_target(hosts, target);
    if forall|j: int| 0 <= j < hops.len() ==> (#[trigger] hops[j]).report.host != Some(target) {
        assert(!hosts.contains(Some(target))) by {
            if hosts.contains(Some(target)) {
                let j = choose|j: int| 0 <= j < hosts.len() && hosts[j] == Some(target);
                assert(hops[j].report.host == Some(target));
            }
        }
        assert(visible(hops, target) =~= hops);
    }
}

/// What is written after a sweep shows the hops up to the target, and nothing of
/// those behind it. A live run redraws their table in place. Any other lets it
/// follow behind an empty line, and a run that goes on reports the events of
/// these hops below it.
pub proof fn law_frame_shows_the_visible_hops(
    config: ProbeConfig,
    previous_lines: Option<u16>,
    snapshots: Seq<HopEventSnapshot>,
    hops: Seq<MeasuredHop>,
)
    ensures
        ({
            let frame = frame_text(config, previous_lines, snapshots, hops);
            let shown = visible(hops, config.resolved_target);
            let table = crate::render::block_of(shown);
            let live = config.continuous && !config.scroll && !config.verbose;
            &&& frame == frame_text(config, previous_lines, snapshots, shown)
            &&& live && previous_lines is None ==> frame == table
            &&& live ==> (previous_lines matches Some(lines) ==> frame == "\x1b["@
                + crate::text::decimal(lines as nat) + "A\x1b[J"@ + table)
            &&& !live && !config.continuous ==> frame == "\n"@ + table
            &&& !live && config.continuous ==> frame == "\n"@ + table + event_lines(
                crate::status::events_of(shown, snapshots),
            )
        }),
{
    let shown = visible(hops, config.resolved_target);
    lemma_visible_again(hops, config.resolved_target);
    law_live_frame_goes_up_first(shown, 0);
    law_events_follow_the_table(shown, Seq::empty(), Seq::empty());
}

/// All of the visible hops are visible among themselves.
proof fn lemma_visible_again(hops: Seq<MeasuredHop>, target: Ipv4Address)
    ensures
        visible(visible(hops, target), target) == visible(hops, target),
{
    crate::hop::law_truncation_is_idempotent(hops, target);
}

/// Each event has a line of its own, in the order of the events.
pub proof fn law_each_event_has_a_line(events: Seq<Seq<char>>, event: Seq<char>)
    ensures
        event_lines(Seq::empty()) == Seq::<char>::empty(),
        event_lines(events.push(event)) == event_lines(events) + ("Event: "@ + event + "\n"@),
{
    assert(events.push(event).drop_last() =~= events);
    assert(event_lines(events.push(event)) =~= event_lines(events) + ("Event: "@ + event
        + "\n"@));
}

} // verus!
