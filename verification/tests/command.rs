use rttmeter::address::Ipv4Address;
use rttmeter::command::{
    accept_count, accept_interval, accept_max_ttl, accept_ttl, mode_name, option_name,
    output_mode_name, parse_command as parse_with, refusal_text, resolve_target, run_mode_name,
    selected_mode, should_emit_events, should_use_live_refresh, startup_line,
    startup_scope_display, target_argument, usage, Command, CommandError, IntervalReading,
    OptionName, ProbeConfig, ProbeMode, Settings, DEFAULT_INTERVAL_NANOS, DEFAULT_MAX_TTL,
    DEFAULT_PROBE_COUNT,
};
use std::time::Duration;

/// What an argument is, read as a number of seconds.
fn interval_reading(arg: &str) -> IntervalReading {
    match arg.parse::<f64>() {
        Ok(seconds) if seconds > 0.0 => match Duration::try_from_secs_f64(seconds) {
            Ok(interval) => IntervalReading::Positive(interval.as_nanos()),
            Err(_) => IntervalReading::OutOfRange,
        },
        Ok(_) => IntervalReading::NotPositive,
        Err(error) => IntervalReading::Malformed(error.to_string()),
    }
}

/// Reads a command line. A name other than that of an address is one of this
/// host.
fn try_parse<const N: usize>(args: [String; N]) -> Result<Command, CommandError> {
    let resolved = target_argument(&args).map(|target| {
        resolve_target(target, &Ok(vec![None, Some(Ipv4Address::new(127, 0, 0, 1))])).unwrap()
    });
    let readings: Vec<IntervalReading> = args.iter().map(|arg| interval_reading(arg)).collect();
    parse_with(&args, resolved, &readings)
}

fn parse_command<const N: usize>(args: [String; N]) -> Command {
    try_parse(args).unwrap()
}

/// The message with which `rttmeter 8.8.8.8` and these options are refused.
fn refused(options: &[&str]) -> Option<String> {
    let mut args = vec![String::from("rttmeter"), String::from("8.8.8.8")];
    args.extend(options.iter().map(|option| option.to_string()));
    let readings: Vec<IntervalReading> = args.iter().map(|arg| interval_reading(arg)).collect();
    match parse_with(&args, Some(Ipv4Address::new(8, 8, 8, 8)), &readings) {
        Ok(command) => panic!("accepted: {command:?}"),
        Err(CommandError::Message(message)) => Some(message),
        Err(CommandError::Usage) => None,
        Err(CommandError::IntervalOutOfRange) => Some(String::from("out of range")),
    }
}

fn config() -> ProbeConfig {
    ProbeConfig {
        original_target: String::from("example.org"),
        resolved_target: Ipv4Address::new(192, 0, 2, 1),
        count: 3,
        max_ttl: 20,
        ttl: None,
        trace: false,
        verbose: false,
        continuous: true,
        scroll: true,
        interval_nanos: DEFAULT_INTERVAL_NANOS,
    }
}

fn settings() -> Settings {
    Settings {
        count: 1,
        max_ttl: 2,
        explicit_max_ttl: false,
        ttl: None,
        trace: false,
        verbose: false,
        continuous: true,
        scroll: true,
        interval_nanos: 4,
    }
}

#[test]
fn parse_command_accepts_version_flag() {
    let command = parse_command([String::from("rttmeter"), String::from("--version")]);

    assert_eq!(command, Command::Version);
}

#[test]
fn parse_command_defaults_probe_count_to_one_and_continuous_scroll() {
    let command = parse_command([String::from("rttmeter"), String::from("8.8.8.8")]);

    assert_eq!(
        command,
        Command::Trace(ProbeConfig {
            original_target: String::from("8.8.8.8"),
            resolved_target: Ipv4Address::new(8, 8, 8, 8),
            count: DEFAULT_PROBE_COUNT,
            max_ttl: DEFAULT_MAX_TTL,
            ttl: None,
            trace: false,
            verbose: false,
            continuous: true,
            scroll: true,
            interval_nanos: DEFAULT_INTERVAL_NANOS,
        })
    );
}

#[test]
fn parse_command_accepts_trace_mode_with_custom_options() {
    let command = parse_command([
        String::from("rttmeter"),
        String::from("8.8.8.8"),
        String::from("--trace"),
        String::from("--count"),
        String::from("3"),
        String::from("--max-ttl"),
        String::from("5"),
        String::from("--verbose"),
        String::from("--continuous"),
        String::from("--scroll"),
        String::from("--interval"),
        String::from("2.5"),
    ]);

    assert_eq!(
        command,
        Command::Trace(ProbeConfig {
            original_target: String::from("8.8.8.8"),
            resolved_target: Ipv4Address::new(8, 8, 8, 8),
            count: 3,
            max_ttl: 5,
            ttl: None,
            trace: true,
            verbose: true,
            continuous: true,
            scroll: true,
            interval_nanos: Duration::from_secs_f64(2.5).as_nanos(),
        })
    );
}

#[test]
fn parse_command_accepts_single_ttl_mode() {
    let command = parse_command([
        String::from("rttmeter"),
        String::from("8.8.8.8"),
        String::from("--ttl"),
        String::from("12"),
        String::from("--count"),
        String::from("1"),
        String::from("--verbose"),
    ]);

    assert_eq!(
        command,
        Command::Trace(ProbeConfig {
            original_target: String::from("8.8.8.8"),
            resolved_target: Ipv4Address::new(8, 8, 8, 8),
            count: 1,
            max_ttl: DEFAULT_MAX_TTL,
            ttl: Some(12),
            trace: false,
            verbose: true,
            continuous: true,
            scroll: true,
            interval_nanos: DEFAULT_INTERVAL_NANOS,
        })
    );
}

#[test]
fn parse_command_accepts_decimal_interval() {
    let command = parse_command([
        String::from("rttmeter"),
        String::from("8.8.8.8"),
        String::from("--interval"),
        String::from("0.5"),
    ]);

    match command {
        Command::Trace(config) => {
            assert_eq!(config.interval_nanos, Duration::from_secs_f64(0.5).as_nanos())
        }
        Command::Version => panic!("expected trace command"),
    }
}

#[test]
fn parse_command_accepts_once_and_live_overrides() {
    let command = parse_command([
        String::from("rttmeter"),
        String::from("8.8.8.8"),
        String::from("--once"),
        String::from("--live"),
    ]);

    match command {
        Command::Trace(config) => {
            assert!(!config.continuous);
            assert!(!config.scroll);
            assert_eq!(config.count, DEFAULT_PROBE_COUNT);
            assert_eq!(config.interval_nanos, DEFAULT_INTERVAL_NANOS);
        }
        Command::Version => panic!("expected trace command"),
    }
}

#[test]
fn parse_command_accepts_explicit_trace_mode() {
    let command = parse_command([
        String::from("rttmeter"),
        String::from("8.8.8.8"),
        String::from("--trace"),
    ]);

    match command {
        Command::Trace(config) => {
            assert!(config.trace);
            assert_eq!(config.ttl, None);
            assert_eq!(config.max_ttl, DEFAULT_MAX_TTL);
        }
        Command::Version => panic!("expected trace command"),
    }
}

#[test]
fn parse_command_accepts_hostname_targets() {
    let command = parse_command([String::from("rttmeter"), String::from("localhost")]);

    match command {
        Command::Trace(config) => {
            assert_eq!(config.original_target, "localhost");
            assert!(config.resolved_target.is_loopback());
            assert_eq!(config.count, DEFAULT_PROBE_COUNT);
            assert_eq!(config.max_ttl, DEFAULT_MAX_TTL);
            assert_eq!(config.ttl, None);
            assert!(!config.trace);
            assert!(!config.verbose);
            assert!(config.continuous);
            assert!(config.scroll);
            assert_eq!(config.interval_nanos, DEFAULT_INTERVAL_NANOS);
        }
        Command::Version => panic!("expected trace command"),
    }
}

#[test]
fn the_short_version_flag_is_accepted_and_stands_alone() {
    assert_eq!(
        try_parse([String::from("rttmeter"), String::from("-V")]),
        Ok(Command::Version)
    );
    assert_eq!(
        try_parse([String::from("rttmeter"), String::from("-V"), String::from("x")]),
        Err(CommandError::Usage)
    );
    assert_eq!(target_argument(&[String::from("rttmeter"), String::from("-V")]), None);
}

#[test]
fn a_command_line_without_target_is_refused() {
    assert_eq!(try_parse([]), Err(CommandError::Usage));
    assert_eq!(try_parse([String::from("rttmeter")]), Err(CommandError::Usage));
}

#[test]
fn unknown_options_are_refused_with_the_usage() {
    assert_eq!(refused(&["--bogus"]), None);
    assert_eq!(refused(&["--trace", "--version"]), None);
    assert_eq!(refused(&["stray"]), None);
}

#[test]
fn missing_values_are_named() {
    assert_eq!(refused(&["--count"]).unwrap(), "Missing value after --count");
    assert_eq!(refused(&["--max-ttl"]).unwrap(), "Missing value after --max-ttl");
    assert_eq!(refused(&["--ttl"]).unwrap(), "Missing value after --ttl");
    assert_eq!(refused(&["--interval"]).unwrap(), "Missing value after --interval");
}

#[test]
fn zero_is_refused() {
    assert_eq!(refused(&["--count", "0"]).unwrap(), "Probe count must be greater than zero");
    assert_eq!(refused(&["--max-ttl", "0"]).unwrap(), "Max TTL must be greater than zero");
    assert_eq!(refused(&["--ttl", "+0"]).unwrap(), "TTL must be greater than zero");
    assert_eq!(refused(&["--interval", "0"]).unwrap(), "Interval must be greater than zero");
    assert_eq!(refused(&["--interval", "-1"]).unwrap(), "Interval must be greater than zero");
    assert_eq!(refused(&["--interval", "NaN"]).unwrap(), "Interval must be greater than zero");
}

#[test]
fn malformed_values_are_quoted_with_the_reason() {
    assert_eq!(
        refused(&["--count", "many"]).unwrap(),
        format!("Invalid probe count 'many': {}", "many".parse::<u16>().unwrap_err())
    );
    assert_eq!(
        refused(&["--count", "65536"]).unwrap(),
        format!("Invalid probe count '65536': {}", "65536".parse::<u16>().unwrap_err())
    );
    assert_eq!(
        refused(&["--max-ttl", "256"]).unwrap(),
        format!("Invalid max TTL '256': {}", "256".parse::<u8>().unwrap_err())
    );
    assert_eq!(
        refused(&["--ttl", ""]).unwrap(),
        format!("Invalid TTL '': {}", "".parse::<u8>().unwrap_err())
    );
    assert_eq!(
        refused(&["--interval", "soon"]).unwrap(),
        format!("Invalid interval 'soon': {}", "soon".parse::<f64>().unwrap_err())
    );
    assert_eq!(refused(&["--interval", "1e300"]).unwrap(), "out of range");
}

#[test]
fn numbers_may_have_a_plus_and_leading_zeros() {
    match parse_command([
        String::from("rttmeter"),
        String::from("8.8.8.8"),
        String::from("--count"),
        String::from("+65535"),
        String::from("--max-ttl"),
        String::from("0255"),
    ]) {
        Command::Trace(config) => {
            assert_eq!(config.count, 65535);
            assert_eq!(config.max_ttl, 255);
        }
        Command::Version => panic!("expected trace command"),
    }
}

#[test]
fn a_pinned_hop_excludes_a_trace_and_a_limit_in_any_order() {
    let limit = "--ttl cannot be used with --max-ttl";
    let trace = "--ttl cannot be used with --trace";
    assert_eq!(refused(&["--ttl", "3", "--max-ttl", "9"]).unwrap(), limit);
    assert_eq!(refused(&["--max-ttl", "9", "--ttl", "3"]).unwrap(), limit);
    assert_eq!(refused(&["--ttl", "3", "--trace"]).unwrap(), trace);
    assert_eq!(refused(&["--trace", "--ttl", "3"]).unwrap(), trace);
    assert_eq!(refused(&["--trace", "--ttl", "3", "--max-ttl", "30"]).unwrap(), limit);
}

#[test]
fn later_options_override_earlier_ones() {
    match parse_command([
        String::from("rttmeter"),
        String::from("8.8.8.8"),
        String::from("--once"),
        String::from("--count"),
        String::from("2"),
        String::from("--live"),
        String::from("--continuous"),
        String::from("--count"),
        String::from("7"),
        String::from("--scroll"),
    ]) {
        Command::Trace(config) => {
            assert!(config.continuous);
            assert!(config.scroll);
            assert_eq!(config.count, 7);
        }
        Command::Version => panic!("expected trace command"),
    }
}

#[test]
fn values_are_accepted_as_they_read() {
    assert_eq!(accept_count(settings(), "x", Ok(9)), Ok(Settings { count: 9, ..settings() }));
    assert_eq!(
        accept_count(settings(), "x", Err(String::from("why"))),
        Err(CommandError::Message(String::from("Invalid probe count 'x': why")))
    );
    assert_eq!(
        accept_max_ttl(settings(), "x", Ok(9)),
        Ok(Settings { max_ttl: 9, explicit_max_ttl: true, ..settings() })
    );
    assert_eq!(
        accept_max_ttl(settings(), "x", Err(String::from("why"))),
        Err(CommandError::Message(String::from("Invalid max TTL 'x': why")))
    );
    assert_eq!(accept_ttl(settings(), "x", Ok(9)), Ok(Settings { ttl: Some(9), ..settings() }));
    assert_eq!(
        accept_ttl(settings(), "x", Ok(0)),
        Err(CommandError::Message(String::from("TTL must be greater than zero")))
    );
    assert_eq!(
        accept_interval(settings(), "x", &IntervalReading::Positive(8)),
        Ok(Settings { interval_nanos: 8, ..settings() })
    );
    assert_eq!(
        accept_interval(settings(), "x", &IntervalReading::OutOfRange),
        Err(CommandError::IntervalOutOfRange)
    );
}

#[test]
fn options_are_told_apart() {
    for (text, name) in [
        ("--count", OptionName::Count),
        ("--max-ttl", OptionName::MaxTtl),
        ("--ttl", OptionName::Ttl),
        ("--interval", OptionName::Interval),
        ("--trace", OptionName::Trace),
        ("--once", OptionName::Once),
        ("--verbose", OptionName::Verbose),
        ("--continuous", OptionName::Continuous),
        ("--live", OptionName::Live),
        ("--scroll", OptionName::Scroll),
    ] {
        assert_eq!(option_name(&String::from(text)), Some(name));
        assert_eq!(option_name(&format!("{text} ")), None);
    }
}

#[test]
fn refusals_show_the_usage() {
    let args = [String::from("rtt")];
    let usage_of_rtt = "Usage: rtt <target> [--count <probes>] [--max-ttl <hops> | --ttl <hop>] [--trace] [--interval <seconds>] [--verbose] [--continuous | --once] [--scroll | --live]\n       rtt --version\n";
    assert_eq!(usage(&args), usage_of_rtt);
    assert!(usage(&[]).starts_with("Usage: rttmeter <target>"));
    assert_eq!(refusal_text(&CommandError::Usage, &args), usage_of_rtt);
    assert_eq!(
        refusal_text(&CommandError::Message(String::from("No.")), &args),
        format!("No.\n{usage_of_rtt}")
    );
}

#[test]
fn targets_resolve_to_the_first_ipv4_address() {
    let ip = Ipv4Address::new(198, 51, 100, 7);
    let other = Ipv4Address::new(198, 51, 100, 8);
    assert_eq!(resolve_target("host", &Ok(vec![None, Some(ip), Some(other)])), Ok(ip));
    assert_eq!(resolve_target("198.51.100.8", &Ok(vec![Some(ip)])), Ok(other));
    assert_eq!(
        resolve_target("host", &Ok(vec![None])),
        Err(String::from("Target 'host' did not resolve to an IPv4 address"))
    );
    assert_eq!(
        resolve_target("host", &Err(String::from("no such host"))),
        Err(String::from("Failed to resolve target 'host': no such host"))
    );
}

#[test]
fn modes_have_names() {
    let auto = config();
    assert_eq!(selected_mode(&auto), ProbeMode::AutoTtl);
    assert_eq!(mode_name(&auto), "auto-ttl");
    assert_eq!(startup_scope_display(&auto), "");
    let single = ProbeConfig { ttl: Some(12), trace: true, ..config() };
    assert_eq!(selected_mode(&single), ProbeMode::SingleTtl(12));
    assert_eq!(mode_name(&single), "single-ttl");
    assert_eq!(startup_scope_display(&single), " ttl=12");
    let trace = ProbeConfig { trace: true, ..config() };
    assert_eq!(selected_mode(&trace), ProbeMode::Trace);
    assert_eq!(mode_name(&trace), "trace");
    assert_eq!(startup_scope_display(&trace), " max_ttl=20");
}

#[test]
fn the_table_is_redrawn_in_place_only_in_a_quiet_continuous_live_run() {
    for bits in 0..8 {
        let config = ProbeConfig {
            continuous: bits & 1 != 0,
            scroll: bits & 2 != 0,
            verbose: bits & 4 != 0,
            ..config()
        };
        let live = bits == 1;
        assert_eq!(should_use_live_refresh(&config), live);
        assert_eq!(should_emit_events(&config), config.continuous && !live);
        assert_eq!(output_mode_name(&config), if live { "live" } else { "scroll" });
        assert_eq!(run_mode_name(&config), if config.continuous { "continuous" } else { "once" });
    }
}

#[test]
fn the_first_line_tells_the_configuration() {
    assert_eq!(
        startup_line(&ProbeConfig { trace: true, ..config() }, "1.0", "0.5"),
        "Starting rttmeter target=example.org resolved=192.0.2.1 count=3 max_ttl=20 timeout=1.0s interval=0.5s mode=trace run=continuous output=scroll"
    );
}

#[test]
fn addresses_are_written_and_read_in_dotted_decimal() {
    for ip in [
        Ipv4Address::new(0, 0, 0, 0),
        Ipv4Address::new(8, 8, 8, 8),
        Ipv4Address::new(10, 136, 70, 179),
        Ipv4Address::new(255, 255, 255, 255),
    ] {
        assert_eq!(Ipv4Address::parse(&ip.to_text()), Some(ip));
        assert_eq!(Ipv4Address::from_bits(ip.to_bits()), ip);
    }
    assert_eq!(Ipv4Address::new(10, 136, 70, 179).to_text(), "10.136.70.179");
    assert_eq!(Ipv4Address::new(1, 2, 3, 4).to_bits(), 0x01020304);
    assert!(!Ipv4Address::new(128, 0, 0, 1).is_loopback());
    for text in [
        "", "1", "1.2.3", "1.2.3.", ".1.2.3", "1.2.3.4.", "1.2.3.4.5", "01.2.3.4", "1.2.3.00",
        "256.2.3.4", "1.2.3.999", "1.2.3.1000", "1..3.4", "1.2.3.4 ", " 1.2.3.4", "+1.2.3.4",
        "a.b.c.d", "1,2,3,4",
    ] {
        assert_eq!(Ipv4Address::parse(text), None);
    }
}
