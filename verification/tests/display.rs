use rttmeter::address::Ipv4Address;
use rttmeter::command::ProbeConfig;
use rttmeter::hop::HopReport;
use rttmeter::monitor::{visible_hops, Monitor};
use rttmeter::render::{
    format_rtt, render_discovery_line, render_hop_table, render_monitor_block,
    render_sparkline as draw_trend, render_status_line,
};
use rttmeter::status::{
    capture_event_snapshots, classify_events, classify_status, find_snapshot, HopEventSnapshot,
    HopFigures, HopSignals, MeasuredHop, MonitorStatus, Trend,
};
use rttmeter::text::{count_lines, decimal_text};

/// A hop, and the floating-point figures of the round-trip times that were
/// measured of it.
#[derive(Clone)]
struct Sampled {
    report: HopReport,
}

/// Nanoseconds in milliseconds.
fn in_ms(rtt_nanos: u128) -> f64 {
    rtt_nanos as f64 / 1_000_000.0
}

impl Sampled {
    fn new(ttl: u8) -> Sampled {
        Sampled { report: HopReport::new(ttl) }
    }

    fn begin_sweep(&mut self) {
        self.report.begin_sweep();
    }

    fn record_probe_sent(&mut self) {
        self.report.record_probe_sent();
    }

    fn record_reply(&mut self, source_ip: Ipv4Address, rtt_ms: u64) {
        self.report.record_reply(source_ip, u128::from(rtt_ms) * 1_000_000);
    }

    fn measured(&self, previous: &[HopEventSnapshot]) -> MeasuredHop {
        let statistics = &self.report.statistics;
        let rtts_ms: Vec<f64> = statistics.rtt_samples().iter().copied().map(in_ms).collect();
        let n = rtts_ms.len() as f64;
        let sent = statistics.sent() as f64;
        let loss = if sent == 0.0 { 0.0 } else { (sent - n) * 100.0 / sent };
        let last = statistics.last_rtt().map(in_ms);
        let average = rtts_ms.iter().sum::<f64>() / n;
        let worst = statistics.worst_rtt().map(in_ms);
        let steps = rtts_ms.windows(2).map(|pair| (pair[1] - pair[0]).abs());
        let jitter = if rtts_ms.len() < 2 { 0.0 } else { steps.sum::<f64>() / (n - 1.0) };
        let worst_before = find_snapshot(previous, self.report.ttl)
            .and_then(|snapshot| snapshot.worst_rtt)
            .map(in_ms);
        MeasuredHop {
            report: self.report.clone(),
            signals: HopSignals {
                jittery: jitter > 50.0,
                spiky: last.is_some_and(|last| last > average * 1.8 && last - average > 30.0),
                worst_risen: match (worst, worst_before) {
                    (Some(now), Some(before)) => now > before + 0.05,
                    _ => false,
                },
            },
            figures: HopFigures {
                loss: format!("{loss:.1}"),
                last: last.map(|rtt| format!("{rtt:.1}")),
                average: last.map(|_| format!("{average:.1}")),
                best: None,
                worst: worst.map(|rtt| format!("{rtt:.1}")),
                stdev: None,
                jitter: Some(format!("{jitter:.1}")),
                trend: trend_of(&rtts_ms),
            },
        }
    }
}

/// The samples, scaled to the heights of the blocks.
fn trend_of(samples: &[f64]) -> Trend {
    let min = samples.iter().copied().fold(f64::INFINITY, f64::min);
    let max = samples.iter().copied().fold(f64::NEG_INFINITY, f64::max);
    let flat = (max - min).abs() < f64::EPSILON;
    let level = |sample: &f64| ((sample - min) / (max - min) * 7.0).round() as u8;
    Trend { levels: samples.iter().map(level).collect(), flat }
}

fn render_sparkline(samples: &[f64], width: usize) -> String {
    draw_trend(&trend_of(samples), width)
}

fn report_from_rtts(ttl: u8, rtts_ms: &[u64]) -> Sampled {
    let mut report = Sampled::new(ttl);
    report.begin_sweep();

    for rtt_ms in rtts_ms {
        report.record_probe_sent();
        report.record_reply(Ipv4Address::new(8, 8, 8, 8), *rtt_ms);
    }

    report
}

fn config() -> ProbeConfig {
    ProbeConfig {
        original_target: String::from("8.8.8.8"),
        resolved_target: Ipv4Address::new(8, 8, 8, 8),
        count: 1,
        max_ttl: 30,
        ttl: None,
        trace: true,
        verbose: false,
        continuous: true,
        scroll: true,
        interval_nanos: 1,
    }
}

#[test]
fn discovery_line_formats_reply_and_timeout_cases() {
    assert_eq!(
        render_discovery_line(3, Some(Ipv4Address::new(10, 136, 70, 179)), Some("22.8")),
        "ttl=3   10.136.70.179   22.8ms"
    );
    assert_eq!(render_discovery_line(2, None, None), "ttl=2   *");
}

#[test]
fn sparkline_formats_compact_trend_blocks() {
    assert_eq!(render_sparkline(&[], 8), "-");
    assert_eq!(render_sparkline(&[10.0, 20.0, 30.0, 40.0], 4), "▁▃▆█");
}

#[test]
fn status_classification_prefers_loss_then_jitter_then_spike() {
    let mut lossy = Sampled::new(1);
    lossy.begin_sweep();
    lossy.record_probe_sent();
    lossy.record_probe_sent();
    lossy.record_reply(Ipv4Address::new(1, 1, 1, 1), 10);
    assert_eq!(classify_status(&[lossy.measured(&[])]), MonitorStatus::Lossy);

    let jittery = report_from_rtts(2, &[10, 110, 20]);
    assert_eq!(classify_status(&[jittery.measured(&[])]), MonitorStatus::Jittery);

    let spiky = report_from_rtts(3, &[10, 10, 100]);
    assert_eq!(classify_status(&[spiky.measured(&[])]), MonitorStatus::Spiky);

    let calm = report_from_rtts(4, &[20, 21, 20]);
    assert_eq!(classify_status(&[calm.measured(&[])]), MonitorStatus::Calm);
}

#[test]
fn event_classification_detects_loss_and_recovery() {
    let mut loss_report = Sampled::new(5);
    loss_report.begin_sweep();
    loss_report.record_probe_sent();
    let events = classify_events(&[loss_report.measured(&[])], &[]);
    assert!(events.iter().any(|event| event.contains("first packet loss")));

    let mut recovered = report_from_rtts(5, &[12]);
    recovered.begin_sweep();
    recovered.record_probe_sent();
    recovered.record_reply(Ipv4Address::new(8, 8, 8, 8), 12);
    let previous = capture_event_snapshots(&[loss_report.measured(&[])]);
    let recovery_events = classify_events(&[recovered.measured(&previous)], &previous);
    assert!(recovery_events
        .iter()
        .any(|event| event.contains("recovered after loss")));
}

#[test]
fn the_status_of_a_path_is_that_of_its_worst_hop() {
    let calm = report_from_rtts(1, &[20, 21, 20]).measured(&[]);
    let spiky = report_from_rtts(2, &[10, 10, 100]).measured(&[]);
    let jittery = report_from_rtts(3, &[10, 110, 20]).measured(&[]);
    let mut lost = Sampled::new(4);
    lost.record_probe_sent();
    let lossy = lost.measured(&[]);
    assert_eq!(classify_status(&[]), MonitorStatus::Calm);
    assert_eq!(classify_status(&[calm.clone(), spiky.clone()]), MonitorStatus::Spiky);
    assert_eq!(classify_status(&[jittery.clone(), spiky.clone()]), MonitorStatus::Jittery);
    assert_eq!(classify_status(&[spiky.clone(), jittery.clone()]), MonitorStatus::Jittery);
    assert_eq!(classify_status(&[calm, lossy, jittery, spiky]), MonitorStatus::Lossy);
}

#[test]
fn statuses_are_put_in_words() {
    for (status, label, message) in [
        (MonitorStatus::Calm, "calm", "RTT is stable"),
        (MonitorStatus::Spiky, "spiky", "latency spike detected"),
        (MonitorStatus::Jittery, "jittery", "RTT is moving around"),
        (MonitorStatus::Lossy, "lossy", "packet loss observed"),
    ] {
        assert_eq!(status.label(), label);
        assert_eq!(status.message(), message);
    }
    assert_eq!(render_status_line(&[]), "Status: calm - RTT is stable");
}

#[test]
fn a_first_loss_is_reported_once() {
    let mut hop = Sampled::new(5);
    hop.record_probe_sent();
    let first = hop.measured(&[]);
    let snapshots = capture_event_snapshots(&[first.clone()]);
    assert_eq!(classify_events(&[first], &[]), vec!["hop 5 saw its first packet loss"]);
    hop.begin_sweep();
    hop.record_probe_sent();
    assert!(classify_events(&[hop.measured(&snapshots)], &snapshots).is_empty());
}

#[test]
fn an_unchanged_path_has_no_events() {
    let mut lost = report_from_rtts(1, &[10]);
    lost.record_probe_sent();
    let hops = [
        lost.measured(&[]),
        report_from_rtts(2, &[10, 10, 100]).measured(&[]),
        report_from_rtts(3, &[20]).measured(&[]),
    ];
    assert!(hops[0].report.sweep_had_loss());
    let snapshots = capture_event_snapshots(&hops);
    assert!(classify_events(&hops, &snapshots).is_empty());
}

#[test]
fn all_events_of_a_hop_are_reported_in_order() {
    let before = HopEventSnapshot {
        ttl: 7,
        had_loss_ever: true,
        worst_rtt: Some(10_000_000),
        spiky: false,
        sweep_had_loss: true,
    };
    let hop = report_from_rtts(7, &[10, 10, 100]);
    assert_eq!(
        classify_events(&[hop.measured(&[before])], &[before]),
        vec![
            "hop 7 recovered after loss",
            "hop 7 set a new worst RTT at 100.0ms",
            "hop 7 latency spike detected",
        ]
    );
    let elsewhere = HopEventSnapshot { ttl: 8, ..before };
    assert!(classify_events(&[hop.measured(&[elsewhere])], &[elsewhere]).is_empty());
}

#[test]
fn a_slightly_longer_worst_time_is_no_event() {
    let hop = report_from_rtts(7, &[10]);
    let snapshots = capture_event_snapshots(&[hop.measured(&[])]);
    assert!(classify_events(&[hop.measured(&snapshots)], &snapshots).is_empty());
    let mut never_replied = snapshots[0];
    never_replied.worst_rtt = None;
    assert!(classify_events(&[hop.measured(&[never_replied])], &[never_replied]).is_empty());
}

#[test]
fn a_worst_time_that_is_not_longer_is_no_event() {
    let mut hop = report_from_rtts(7, &[10, 30]).measured(&[]);
    hop.signals.worst_risen = true;
    let before = |worst_rtt: Option<u128>| HopEventSnapshot {
        ttl: 7,
        had_loss_ever: false,
        worst_rtt,
        spiky: false,
        sweep_had_loss: false,
    };
    let events = |worst_rtt: Option<u128>| classify_events(&[hop.clone()], &[before(worst_rtt)]);
    assert_eq!(events(Some(29_000_000)), vec!["hop 7 set a new worst RTT at 30.0ms"]);
    assert!(events(Some(30_000_000)).is_empty());
    assert!(events(None).is_empty());
}

#[test]
fn snapshots_are_found_by_their_hop() {
    let hops =
        [report_from_rtts(1, &[5]).measured(&[]), report_from_rtts(2, &[10, 10, 100]).measured(&[])];
    let snapshots = capture_event_snapshots(&hops);
    assert_eq!(
        snapshots[1],
        HopEventSnapshot {
            ttl: 2,
            had_loss_ever: false,
            worst_rtt: Some(100_000_000),
            spiky: true,
            sweep_had_loss: false,
        }
    );
    assert_eq!(find_snapshot(&snapshots, 2), Some(snapshots[1]));
    assert_eq!(find_snapshot(&snapshots, 3), None);
}

#[test]
fn sparklines_fill_their_width() {
    assert_eq!(render_sparkline(&[1.0, 2.0], 0), "-");
    assert_eq!(render_sparkline(&[5.0, 5.0, 5.0], 4), "▄▄▄▄");
    assert_eq!(render_sparkline(&[1.0, 2.0], 4), "▁▁██");
    assert_eq!(render_sparkline(&[1.0, 9.0, 2.0, 9.0, 8.0, 9.0], 3), "▁▂▇");
    let steps = Trend { levels: vec![0, 1, 2, 3, 4, 5, 6, 7], flat: false };
    assert_eq!(draw_trend(&steps, 8), "▁▂▃▄▅▆▇█");
}

#[test]
fn round_trip_times_that_are_missing_are_dashes() {
    assert_eq!(format_rtt(&None), "-");
    assert_eq!(format_rtt(&Some(String::from("3.5"))), "3.5");
}

#[test]
fn the_table_has_its_columns_below_each_other() {
    let mut silent = Sampled::new(12);
    silent.record_probe_sent();
    let table = render_hop_table(&[
        report_from_rtts(1, &[10, 20, 30, 40]).measured(&[]),
        silent.measured(&[]),
    ]);
    assert_eq!(
        table,
        "Hop  Host             Loss%  Sent  Recv   Last    Avg   Best   Wrst  StDev   Jttr Trend           \n\
         1    8.8.8.8           0.0%     4     4   40.0   25.0      -   40.0      -   10.0 ▁▁▁▁▃▃▃▃▆▆▆▆████\n\
         12   *               100.0%     1     0      -      -      -      -      -    0.0 -               \n"
    );
    for line in table.lines() {
        assert_eq!(line.chars().count(), 98);
    }
}

#[test]
fn the_block_ends_with_the_status() {
    let hops = [report_from_rtts(1, &[10]).measured(&[])];
    let block = render_monitor_block(&hops);
    assert_eq!(
        block,
        format!("{}Status: calm - RTT is stable\n", render_hop_table(&hops))
    );
    assert_eq!(count_lines(&block), 3);
}

#[test]
fn lines_are_counted() {
    assert_eq!(count_lines(""), 0);
    assert_eq!(count_lines("\n"), 1);
    assert_eq!(count_lines("a"), 1);
    assert_eq!(count_lines("a\n"), 1);
    assert_eq!(count_lines("a\n\nb"), 3);
    assert_eq!(count_lines("▁\r\n█"), 2);
    assert_eq!(count_lines(&"\n".repeat(65537)), 1);
}

#[test]
fn numbers_are_written_in_decimal() {
    for n in [0, 9, 10, 255, 65535, u64::MAX] {
        assert_eq!(decimal_text(n), n.to_string());
    }
}

#[test]
fn only_hops_up_to_the_target_are_shown() {
    let mut router = report_from_rtts(1, &[1]);
    router.report.host = Some(Ipv4Address::new(10, 0, 0, 1));
    let hops = [
        router.measured(&[]),
        report_from_rtts(2, &[2]).measured(&[]),
        report_from_rtts(3, &[3]).measured(&[]),
    ];
    assert_eq!(visible_hops(&hops, Ipv4Address::new(8, 8, 8, 8)), &hops[..2]);
    assert_eq!(visible_hops(&hops, Ipv4Address::new(9, 9, 9, 9)), &hops[..]);
}

#[test]
fn a_live_table_takes_the_place_of_the_last() {
    let live = ProbeConfig { scroll: false, ..config() };
    let hops = [report_from_rtts(1, &[10]).measured(&[])];
    let block = render_monitor_block(&hops);
    let mut monitor = Monitor::new();
    assert_eq!(monitor.frame(&live, &hops), block);
    assert_eq!(monitor.previous_lines, Some(3));
    assert_eq!(monitor.frame(&live, &hops), format!("\x1b[3A\x1b[J{block}"));
}

#[test]
fn a_scrolled_table_is_followed_by_its_events() {
    let mut lost = Sampled::new(2);
    lost.record_probe_sent();
    let hops = [lost.measured(&[])];
    let block = render_monitor_block(&hops);
    let mut monitor = Monitor::new();
    assert_eq!(
        monitor.frame(&config(), &hops),
        format!("\n{block}Event: hop 2 saw its first packet loss\n")
    );
    assert_eq!(monitor.previous_lines, None);
    assert_eq!(monitor.previous_snapshots, capture_event_snapshots(&hops));
    assert_eq!(monitor.frame(&config(), &hops), format!("\n{block}"));
    let once = ProbeConfig { continuous: false, ..config() };
    assert_eq!(Monitor::new().frame(&once, &hops), format!("\n{block}"));
}
