use rttmeter::address::Ipv4Address;
use rttmeter::command::ProbeConfig;
use rttmeter::hop::{prepare_reports, reach_of, truncate_after_target, HopReport};
use rttmeter::icmp::{
    internet_checksum, EchoRequest, ParsedIcmpResponse, ECHO_REPLY_TYPE, TIME_EXCEEDED_TYPE,
};
use rttmeter::notes::{
    discovery_failure, discovery_start_line, discovery_success_line, probe_note,
    receive_timeout_failure, run_failure, send_failure, socket_failure, timeout_note, ttl_failure,
    version_line,
};
use rttmeter::probe::{
    next_sequence_number, probe_identifier, probe_packet, Discovery, DiscoveryStep,
    FIRST_SEQUENCE_NUMBER,
};
use rttmeter::reply::{
    matched_reply, receive_step, reply_note, AwaitedProbe, MatchedReply, ReceiveAction, ReceiveEvent,
    PER_PROBE_TIMEOUT_NANOS,
};
use rttmeter::stats::ProbeStatistics;
use rttmeter::sweep::{Sweep, SweepStep};

const TARGET: Ipv4Address = Ipv4Address { a: 8, b: 8, c: 8, d: 8 };
const ROUTER: Ipv4Address = Ipv4Address { a: 10, b: 0, c: 0, d: 1 };

fn config() -> ProbeConfig {
    ProbeConfig {
        original_target: String::from("8.8.8.8"),
        resolved_target: TARGET,
        count: 1,
        max_ttl: 4,
        ttl: None,
        trace: true,
        verbose: false,
        continuous: true,
        scroll: true,
        interval_nanos: 1,
    }
}

fn from_router() -> Option<MatchedReply> {
    Some(MatchedReply { source_ip: ROUTER, icmp_type: TIME_EXCEEDED_TYPE, rtt_nanos: 7_000_000 })
}

fn from_target() -> Option<MatchedReply> {
    Some(MatchedReply { source_ip: TARGET, icmp_type: ECHO_REPLY_TYPE, rtt_nanos: 9_000_000 })
}

/// Sets the time to live where the sweep asks for it, and takes in the outcome of
/// the next probe.
fn advance(sweep: &mut Sweep, outcome: Option<MatchedReply>) {
    if let SweepStep::SetTtl { .. } = sweep.step() {
        sweep.begin_hop();
    }
    sweep.advance(outcome);
}

fn awaited() -> AwaitedProbe {
    AwaitedProbe { identifier: 0x1234, sequence_number: 7, target: TARGET }
}

#[test]
fn sequence_numbers_leave_out_zero() {
    assert_eq!(FIRST_SEQUENCE_NUMBER, 1);
    assert_eq!(next_sequence_number(1), 2);
    assert_eq!(next_sequence_number(65534), 65535);
    assert_eq!(next_sequence_number(65535), 1);
    assert_eq!(next_sequence_number(0), 1);
}

#[test]
fn sequence_numbers_come_again_after_65535_probes() {
    let mut seen = vec![false; 65536];
    let mut number = 40000_u16;
    for _ in 0..65535 {
        assert!(!seen[usize::from(number)]);
        seen[usize::from(number)] = true;
        number = next_sequence_number(number);
    }
    assert_eq!(number, 40000);
    assert!(!seen[0]);
}

#[test]
fn a_probe_is_an_echo_request_with_the_programs_name() {
    let packet = probe_packet(0xbeef, 0x0102);
    assert_eq!(packet, EchoRequest::new(0xbeef, 0x0102, b"rttmeter".to_vec()).to_bytes());
    assert_eq!(packet.len(), 16);
    assert_eq!(internet_checksum(&packet), 0);
    assert_eq!(probe_identifier(0x0012_3456), 0x3456);
}

#[test]
fn discovery_goes_hop_by_hop_and_ends_at_the_target() {
    let mut discovery = Discovery::start(TARGET, 3, 65535);
    assert_eq!(discovery.step(), DiscoveryStep::Probe { ttl: 1, sequence_number: 65535 });
    discovery.advance(from_router());
    assert_eq!(discovery.step(), DiscoveryStep::Probe { ttl: 2, sequence_number: 1 });
    discovery.advance(None);
    assert_eq!(discovery.step(), DiscoveryStep::Probe { ttl: 3, sequence_number: 2 });
    discovery.advance(from_target());
    assert_eq!(discovery.step(), DiscoveryStep::Reached { ttl: 3 });
    assert_eq!(discovery.next_sequence, 3);
}

#[test]
fn discovery_gives_up_at_the_limit() {
    let mut discovery = Discovery::start(TARGET, 2, 1);
    let (near, far) = (from_router().unwrap(), from_target().unwrap());
    discovery.advance(Some(MatchedReply { source_ip: TARGET, ..near }));
    discovery.advance(Some(MatchedReply { source_ip: ROUTER, ..far }));
    assert_eq!(discovery.step(), DiscoveryStep::Unreachable);
    assert_eq!(Discovery::start(TARGET, 0, 1).step(), DiscoveryStep::Unreachable);
}

#[test]
fn discovery_can_search_all_hops() {
    let mut discovery = Discovery::start(TARGET, 255, 1);
    for ttl in 1..=255_u8 {
        assert_eq!(
            discovery.step(),
            DiscoveryStep::Probe { ttl, sequence_number: u16::from(ttl) }
        );
        discovery.advance(None);
    }
    assert_eq!(discovery.step(), DiscoveryStep::Unreachable);
}

#[test]
fn a_sweep_probes_each_hop_up_to_the_target() {
    let reports = vec![HopReport::new(1), HopReport::new(2), HopReport::new(3)];
    let mut sweep = Sweep::start(reports, TARGET, 2, 10);
    let mut outcomes = vec![None, from_target(), None, from_router()];
    let mut asked = Vec::new();
    loop {
        asked.push(sweep.step());
        match sweep.step() {
            SweepStep::SetTtl { .. } => sweep.begin_hop(),
            SweepStep::Probe { .. } => sweep.advance(outcomes.pop().unwrap()),
            SweepStep::Finished => break,
        }
    }
    assert_eq!(
        asked,
        vec![
            SweepStep::SetTtl { ttl: 1 },
            SweepStep::Probe { ttl: 1, sequence_number: 10 },
            SweepStep::Probe { ttl: 1, sequence_number: 11 },
            SweepStep::SetTtl { ttl: 2 },
            SweepStep::Probe { ttl: 2, sequence_number: 12 },
            SweepStep::Probe { ttl: 2, sequence_number: 13 },
            SweepStep::Finished,
        ]
    );
    assert_eq!(sweep.sequence_number, 14);
    assert_eq!(
        sweep.reports,
        vec![
            HopReport {
                ttl: 1,
                host: Some(ROUTER),
                statistics: ProbeStatistics { sent: 2, rtts: vec![7_000_000] },
                sweep_sent: 2,
                sweep_received: 1,
            },
            HopReport {
                ttl: 2,
                host: Some(TARGET),
                statistics: ProbeStatistics { sent: 2, rtts: vec![9_000_000] },
                sweep_sent: 2,
                sweep_received: 1,
            },
            HopReport::new(3),
        ]
    );
}

#[test]
fn a_sweep_that_never_reaches_the_target_ends_behind_the_last_hop() {
    let reports = vec![HopReport::new(1), HopReport::new(2)];
    let mut sweep = Sweep::start(reports, TARGET, 1, 1);
    advance(&mut sweep, None);
    assert_eq!(sweep.hop, 1);
    advance(&mut sweep, from_router());
    assert_eq!(sweep.step(), SweepStep::Finished);
    assert!(sweep.reports[0].sweep_had_loss());
    assert!(sweep.reports[1].sweep_fully_replied());
}

#[test]
fn a_hop_is_as_it_was_until_its_time_to_live_is_set() {
    let known = |ttl: u8| HopReport {
        ttl,
        host: Some(ROUTER),
        statistics: ProbeStatistics { sent: 4, rtts: vec![3] },
        sweep_sent: 4,
        sweep_received: 1,
    };
    let mut sweep = Sweep::start(vec![known(1), known(2)], TARGET, 1, 1);
    assert_eq!(sweep.step(), SweepStep::SetTtl { ttl: 1 });
    assert_eq!(sweep.reports, vec![known(1), known(2)]);
    sweep.begin_hop();
    assert_eq!((sweep.reports[0].sweep_sent, sweep.reports[0].sweep_received), (1, 0));
    assert_eq!(sweep.reports[0].statistics.sent(), 5);
    sweep.advance(None);
    assert_eq!(sweep.step(), SweepStep::SetTtl { ttl: 2 });
    assert_eq!(sweep.reports[1], known(2));
}

#[test]
fn a_second_sweep_starts_anew_and_keeps_the_hosts() {
    let first = HopReport {
        ttl: 1,
        host: Some(ROUTER),
        statistics: ProbeStatistics { sent: 20, rtts: vec![5] },
        sweep_sent: 9,
        sweep_received: 8,
    };
    let mut sweep = Sweep::start(vec![first], TARGET, 2, 1);
    advance(&mut sweep, from_target());
    advance(&mut sweep, from_target());
    assert_eq!(
        sweep.reports,
        vec![HopReport {
            ttl: 1,
            host: Some(ROUTER),
            statistics: ProbeStatistics { sent: 22, rtts: vec![5, 9_000_000, 9_000_000] },
            sweep_sent: 2,
            sweep_received: 2,
        }]
    );
}

#[test]
fn a_sweep_without_hops_asks_for_nothing() {
    assert_eq!(Sweep::start(Vec::new(), TARGET, 5, 1).step(), SweepStep::Finished);
}

#[test]
fn hops_count_probes_and_replies() {
    let mut report = HopReport::new(5);
    assert_eq!(report.host_label(), "*");
    assert!(!report.sweep_had_loss());
    assert!(!report.sweep_fully_replied());
    report.record_probe_sent();
    assert!(report.sweep_had_loss());
    report.record_reply(ROUTER, 30);
    report.record_probe_sent();
    report.record_reply(TARGET, 20);
    assert!(!report.sweep_had_loss());
    assert!(report.sweep_fully_replied());
    assert_eq!(report.host_label(), "10.0.0.1");
    report.begin_sweep();
    assert_eq!(
        report,
        HopReport {
            ttl: 5,
            host: Some(ROUTER),
            statistics: ProbeStatistics { sent: 2, rtts: vec![30, 20] },
            sweep_sent: 0,
            sweep_received: 0,
        }
    );
}

#[test]
fn statistics_know_the_last_and_the_extreme_times() {
    let mut statistics = ProbeStatistics::default();
    assert_eq!((statistics.sent(), statistics.received()), (0, 0));
    assert_eq!(statistics.last_rtt(), None);
    assert_eq!(statistics.best_rtt(), None);
    assert_eq!(statistics.worst_rtt(), None);
    for rtt in [20, 35, 10, 25] {
        statistics.record_probe_sent();
        statistics.record_reply(rtt);
    }
    statistics.record_probe_sent();
    assert_eq!((statistics.sent(), statistics.received()), (5, 4));
    assert_eq!(statistics.rtt_samples(), &[20, 35, 10, 25]);
    assert_eq!(statistics.last_rtt(), Some(25));
    assert_eq!(statistics.best_rtt(), Some(10));
    assert_eq!(statistics.worst_rtt(), Some(35));
    statistics.record_reply(5);
    assert_eq!(statistics.best_rtt(), Some(5));
    assert_eq!(statistics.worst_rtt(), Some(35));
}

#[test]
fn a_loss_of_five_percent_is_tolerated() {
    let of = |sent: u64, received: usize| ProbeStatistics { sent, rtts: vec![1; received] };
    assert!(!of(0, 0).has_lost() && !of(0, 0).is_lossy());
    assert!(!of(7, 7).has_lost() && !of(7, 7).is_lossy());
    assert!(of(20, 19).has_lost() && !of(20, 19).is_lossy());
    assert!(of(19, 18).has_lost() && of(19, 18).is_lossy());
    assert!(of(100, 94).is_lossy() && !of(100, 95).is_lossy());
    assert!(of(u64::MAX, 0).is_lossy());
}

#[test]
fn a_loss_in_an_earlier_sweep_is_not_forgotten() {
    let mut sweep = Sweep::start(vec![HopReport::new(1)], TARGET, 1, 1);
    advance(&mut sweep, None);
    assert!(sweep.reports[0].statistics.has_lost());
    let mut sweep = Sweep::start(sweep.reports, TARGET, 1, 2);
    advance(&mut sweep, from_target());
    assert!(!sweep.reports[0].sweep_had_loss());
    assert!(sweep.reports[0].statistics.has_lost());
    assert_eq!(sweep.reports[0].statistics.received(), 1);
}

#[test]
fn reports_are_prepared_for_the_mode() {
    assert_eq!(
        prepare_reports(&config(), None),
        vec![HopReport::new(1), HopReport::new(2), HopReport::new(3), HopReport::new(4)]
    );
    assert_eq!(
        prepare_reports(&ProbeConfig { ttl: Some(9), trace: false, ..config() }, None),
        vec![HopReport::new(9)]
    );
    assert_eq!(
        prepare_reports(&ProbeConfig { trace: false, ..config() }, Some(6)),
        vec![HopReport::new(6)]
    );
    assert_eq!(prepare_reports(&ProbeConfig { max_ttl: 255, ..config() }, None).len(), 255);
}

#[test]
fn hops_behind_the_target_are_dropped() {
    let at = |ttl: u8, host: Option<Ipv4Address>| HopReport { host, ..HopReport::new(ttl) };
    let mut reports = vec![at(1, Some(ROUTER)), at(2, Some(TARGET)), at(3, Some(TARGET)), at(4, None)];
    assert_eq!(reach_of(&reports, TARGET), 2);
    truncate_after_target(&mut reports, TARGET);
    assert_eq!(reports, vec![at(1, Some(ROUTER)), at(2, Some(TARGET))]);
    truncate_after_target(&mut reports, TARGET);
    assert_eq!(reports.len(), 2);
    let mut unreached = vec![at(1, Some(ROUTER)), at(2, None)];
    truncate_after_target(&mut unreached, TARGET);
    assert_eq!(unreached.len(), 2);
    assert_eq!(reach_of::<HopReport>(&[], TARGET), 0);
}

#[test]
fn waiting_ends_with_the_timeout() {
    assert_eq!(
        receive_step(&awaited(), &ReceiveEvent::Elapsed(0)),
        ReceiveAction::Receive { seconds: 1, micros: 0 }
    );
    assert_eq!(
        receive_step(&awaited(), &ReceiveEvent::Elapsed(1)),
        ReceiveAction::Receive { seconds: 0, micros: 999_999 }
    );
    assert_eq!(
        receive_step(&awaited(), &ReceiveEvent::Elapsed(250_000_500)),
        ReceiveAction::Receive { seconds: 0, micros: 749_999 }
    );
    assert_eq!(
        receive_step(&awaited(), &ReceiveEvent::Elapsed(PER_PROBE_TIMEOUT_NANOS)),
        ReceiveAction::GiveUp
    );
    assert_eq!(receive_step(&awaited(), &ReceiveEvent::NoPacket), ReceiveAction::GiveUp);
}

#[test]
fn only_the_response_to_the_probe_is_accepted() {
    let reply = [ECHO_REPLY_TYPE, 0, 0, 0, 0x12, 0x34, 0, 7];
    let response =
        ParsedIcmpResponse { icmp_type: ECHO_REPLY_TYPE, identifier: 0x1234, sequence_number: 7 };
    assert_eq!(
        receive_step(&awaited(), &ReceiveEvent::Packet(&reply)),
        ReceiveAction::Accept(response.clone())
    );
    let late = [ECHO_REPLY_TYPE, 0, 0, 0, 0x12, 0x34, 0, 6];
    assert_eq!(
        receive_step(&awaited(), &ReceiveEvent::Packet(&late)),
        ReceiveAction::Reject(ParsedIcmpResponse { sequence_number: 6, ..response.clone() })
    );
    let foreign = [ECHO_REPLY_TYPE, 0, 0, 0, 0x12, 0x35, 0, 7];
    assert_eq!(
        receive_step(&awaited(), &ReceiveEvent::Packet(&foreign)),
        ReceiveAction::Reject(ParsedIcmpResponse { identifier: 0x1235, ..response })
    );
    assert_eq!(
        receive_step(&awaited(), &ReceiveEvent::Packet(&[1, 2, 3])),
        ReceiveAction::Ignore
    );
}

#[test]
fn the_first_answer_among_the_packets_is_the_reply() {
    let packets: [(&[u8], Ipv4Address); 5] = [
        (&[1, 2, 3], TARGET),
        (&[ECHO_REPLY_TYPE, 0, 0, 0, 0x12, 0x34, 0, 6], TARGET),
        (&[ECHO_REPLY_TYPE, 0, 0, 0, 0x99, 0x34, 0, 7], TARGET),
        (&[ECHO_REPLY_TYPE, 0, 0, 0, 0x12, 0x34, 0, 7], ROUTER),
        (&[ECHO_REPLY_TYPE, 0, 0, 0, 0x12, 0x34, 0, 7], TARGET),
    ];
    let mut passed_over = 0;
    let mut reply = None;
    for (packet, source_ip) in packets {
        match receive_step(&awaited(), &ReceiveEvent::Packet(packet)) {
            ReceiveAction::Accept(response) => {
                reply = Some(matched_reply(&response, source_ip, 17));
                break;
            }
            ReceiveAction::Ignore | ReceiveAction::Reject(_) => passed_over += 1,
            other => panic!("{other:?}"),
        }
    }
    assert_eq!(passed_over, 3);
    assert_eq!(
        reply,
        Some(MatchedReply { source_ip: ROUTER, icmp_type: ECHO_REPLY_TYPE, rtt_nanos: 17 })
    );
}

#[test]
fn a_sweep_that_breaks_off_keeps_what_it_has_done() {
    let reports = vec![HopReport::new(1), HopReport::new(2), HopReport::new(3)];
    let mut sweep = Sweep::start(reports, TARGET, 2, 65535);
    advance(&mut sweep, from_router());
    advance(&mut sweep, None);
    advance(&mut sweep, from_router());
    assert_eq!(sweep.step(), SweepStep::Probe { ttl: 2, sequence_number: 3 });
    assert_eq!((sweep.reports[0].sweep_sent, sweep.reports[0].sweep_received), (2, 1));
    assert_eq!((sweep.reports[1].sweep_sent, sweep.reports[1].sweep_received), (2, 1));
    assert_eq!(sweep.reports[2], HopReport::new(3));
}

#[test]
fn an_error_message_that_quotes_the_probe_is_accepted() {
    let mut packet = vec![0x45; 20];
    packet.extend_from_slice(&[TIME_EXCEEDED_TYPE, 0, 0, 0, 0, 0, 0, 0]);
    packet.extend_from_slice(&[0x46; 24]);
    packet.extend_from_slice(&probe_packet(0x1234, 7)[..8]);
    assert_eq!(
        receive_step(&awaited(), &ReceiveEvent::Packet(&packet)),
        ReceiveAction::Accept(ParsedIcmpResponse {
            icmp_type: TIME_EXCEEDED_TYPE,
            identifier: 0x1234,
            sequence_number: 7,
        })
    );
}

#[test]
fn a_failure_to_receive_is_an_error() {
    assert_eq!(
        receive_step(&awaited(), &ReceiveEvent::Broken("reset")),
        ReceiveAction::Fail(String::from("Failed to receive ICMP reply from 8.8.8.8: reset"))
    );
}

#[test]
fn only_an_echo_reply_of_the_target_reaches_it() {
    assert!(from_target().unwrap().reached(TARGET));
    assert!(!from_target().unwrap().reached(ROUTER));
    assert!(!MatchedReply { source_ip: TARGET, icmp_type: 3, rtt_nanos: 1 }.reached(TARGET));
}

#[test]
fn notes_on_responses_tell_whether_they_match() {
    let response =
        ParsedIcmpResponse { icmp_type: 11, identifier: 1, sequence_number: 300 };
    assert_eq!(
        reply_note(&response, ROUTER, 4, Some("12.5")),
        "Reply type=11 from 10.0.0.1 ttl=4 seq=300 matched=yes rtt=12.5ms"
    );
    assert_eq!(
        reply_note(&response, ROUTER, 4, None),
        "Reply type=11 from 10.0.0.1 ttl=4 seq=300 matched=no"
    );
}

#[test]
fn notes_and_errors_read_as_expected() {
    assert_eq!(version_line("0.1.0"), "rttmeter 0.1.0");
    assert_eq!(discovery_start_line(30), "Discovering target TTL up to 30...");
    assert_eq!(
        discovery_success_line(9),
        "Target reached at ttl=9. Switching to target monitoring."
    );
    assert_eq!(
        discovery_failure(30),
        "Could not reach target within max_ttl=30. Try --trace --max-ttl <n>."
    );
    assert_eq!(probe_note(true, 3, 4), Some(String::from("Probing ttl=3 seq=4...")));
    assert_eq!(probe_note(false, 3, 4), None);
    assert_eq!(timeout_note(true, 3, 4), Some(String::from("Timeout ttl=3 seq=4")));
    assert_eq!(timeout_note(false, 3, 4), None);
    assert_eq!(socket_failure("denied"), "Failed to create ICMP raw socket: denied");
    assert_eq!(
        send_failure(TARGET, "down"),
        "Failed to send ICMP Echo Request to 8.8.8.8: down"
    );
    assert_eq!(receive_timeout_failure("bad"), "Failed to set receive timeout: bad");
    assert_eq!(ttl_failure(7, "bad"), "Failed to set TTL to 7: bad");
}

#[test]
fn a_failure_to_close_goes_before_a_failure_of_the_run() {
    assert_eq!(run_failure(3, None, None), None);
    assert_eq!(run_failure(3, None, Some("lost")), Some(String::from("lost")));
    assert_eq!(
        run_failure(3, Some("gone"), Some("lost")),
        Some(String::from("Failed to close socket fd 3: gone"))
    );
}
