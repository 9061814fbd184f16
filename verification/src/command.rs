//! The command line: what it asks for, and how it is refused.
use vstd::prelude::*;

use crate::address::Ipv4Address;
use crate::text::{append_decimal, is_text};

verus! {

pub const DEFAULT_PROBE_COUNT: u16 = 1;

pub const DEFAULT_MAX_TTL: u8 = 30;

/// Half a second.
pub const DEFAULT_INTERVAL_NANOS: u128 = 500_000_000;

/// What the program is asked to do.
#[derive(Debug, Clone, PartialEq, Eq)]
pub enum Command {
    Version,
    Trace(ProbeConfig),
}

/// How to probe, and how to show what was found.
#[derive(Debug, Clone, PartialEq, Eq)]
pub struct ProbeConfig {
    pub original_target: String,
    pub resolved_target: Ipv4Address,
    pub count: u16,
    pub max_ttl: u8,
    pub ttl: Option<u8>,
    pub trace: bool,
    pub verbose: bool,
    pub continuous: bool,
    pub scroll: bool,
    pub interval_nanos: u128,
}

/// The hops that are probed.
#[derive(Debug, Clone, Copy, PartialEq, Eq)]
pub enum ProbeMode {
    AutoTtl,
    SingleTtl(u8),
    Trace,
}

/// Why a command line is refused. The usage is shown, but for an interval that is
/// out of range.
#[derive(Debug, Clone, PartialEq, Eq)]
pub enum CommandError {
    /// The usage says it all.
    Usage,
    /// There is a message to go before the usage.
    Message(String),
    /// An interval that is longer than any duration: the program aborts, and
    /// shows no usage.
    IntervalOutOfRange,
}

/// A `CommandError`, with its message as a sequence of characters.
pub enum Refusal {
    Usage,
    Message(Seq<char>),
    IntervalOutOfRange,
}

impl View for CommandError {
    type V = Refusal;

    open spec fn view(&self) -> Refusal {
        match self {
            CommandError::Usage => Refusal::Usage,
            CommandError::Message(message) => Refusal::Message(message@),
            CommandError::IntervalOutOfRange => Refusal::IntervalOutOfRange,
        }
    }
}

/// What an argument is when it is read as a number of seconds.
#[derive(Debug, Clone, PartialEq, Eq)]
pub enum IntervalReading {
    /// More than zero. The duration is in nanoseconds.
    Positive(u128),
    /// More than zero, and longer than any duration.
    OutOfRange,
    /// Zero, less than zero, or not a number.
    NotPositive,
    /// No number, with the reason.
    Malformed(String),
}

/// What the options set.
#[derive(Debug, Clone, Copy, PartialEq, Eq)]
pub struct Settings {
    pub count: u16,
    pub max_ttl: u8,
    /// Whether `max_ttl` was set by an option.
    pub explicit_max_ttl: bool,
    pub ttl: Option<u8>,
    pub trace: bool,
    pub verbose: bool,
    pub continuous: bool,
    pub scroll: bool,
    pub interval_nanos: u128,
}

/// The settings where no option is given.
pub open spec fn default_settings() -> Settings {
    Settings {
        count: DEFAULT_PROBE_COUNT,
        max_ttl: DEFAULT_MAX_TTL,
        explicit_max_ttl: false,
        ttl: None,
        trace: false,
        verbose: false,
        continuous: true,
        scroll: true,
        interval_nanos: DEFAULT_INTERVAL_NANOS,
    }
}

impl ProbeConfig {
    /// The configuration has the settings of `settings`.
    pub open spec fn has_settings(self, settings: Settings) -> bool {
        &&& self.count == settings.count
        &&& self.max_ttl == settings.max_ttl
        &&& self.ttl == settings.ttl
        &&& self.trace == settings.trace
        &&& self.verbose == settings.verbose
        &&& self.continuous == settings.continuous
        &&& self.scroll == settings.scroll
        &&& self.interval_nanos == settings.interval_nanos
    }
}

/// The number that `s` writes: an optional `+`, then digits, at least one.
pub open spec fn unsigned_value(s: Seq<char>) -> Option<nat> {
    let digits = if s.len() > 0 && s[0] == '+' {
        s.skip(1)
    } else {
        s
    };
    if digits.len() > 0 && crate::text::all_digits(digits) {
        Some(crate::text::digits_value(digits))
    } else {
        None
    }
}

/// The text of the error with which `str::parse` refuses to read `s` as `u16`.
pub uninterp spec fn u16_parse_error(s: Seq<char>) -> Seq<char>;

/// The text of the error with which `str::parse` refuses to read `s` as `u8`.
pub uninterp spec fn u8_parse_error(s: Seq<char>) -> Seq<char>;

/// Calls `str::parse::<u16>`. It reads an optional `+` and decimal digits, and
/// succeeds if the number fits. The error comes as the text by which it shows
/// itself; nothing is claimed of that text but that it depends on `s` alone.
#[verifier::external_body]
fn parse_u16(s: &str) -> (parsed: Result<u16, String>)
    ensures
        match parsed {
            Ok(n) => unsigned_value(s@) == Some(n as nat),
            Err(error) => error@ == u16_parse_error(s@) && (unsigned_value(s@) matches Some(n)
                ==> n > u16::MAX),
        },
{
    match s.parse::<u16>() {
        Ok(n) => Ok(n),
        Err(error) => Err(error.to_string()),
    }
}

/// Calls `str::parse::<u8>`. It reads an optional `+` and decimal digits, and
/// succeeds if the number fits. The error comes as the text by which it shows
/// itself; nothing is claimed of that text but that it depends on `s` alone.
#[verifier::external_body]
fn parse_u8(s: &str) -> (parsed: Result<u8, String>)
    ensures
        match parsed {
            Ok(n) => unsigned_value(s@) == Some(n as nat),
            Err(error) => error@ == u8_parse_error(s@) && (unsigned_value(s@) matches Some(n) ==> n
                > u8::MAX),
        },
{
    match s.parse::<u8>() {
        Ok(n) => Ok(n),
        Err(error) => Err(error.to_string()),
    }
}

/// `s` read as a 16-bit number, or the text of the error.
pub open spec fn u16_reading(s: Seq<char>) -> Result<u16, Seq<char>> {
    match unsigned_value(s) {
        Some(n) => if n <= u16::MAX {
            Ok(n as u16)
        } else {
            Err(u16_parse_error(s))
        },
        None => Err(u16_parse_error(s)),
    }
}

/// `s` read as an 8-bit number, or the text of the error.
pub open spec fn u8_reading(s: Seq<char>) -> Result<u8, Seq<char>> {
    match unsigned_value(s) {
        Some(n) => if n <= u8::MAX {
            Ok(n as u8)
        } else {
            Err(u8_parse_error(s))
        },
        None => Err(u8_parse_error(s)),
    }
}

/// A `Result` with the text of its error.
pub open spec fn reading<T>(r: Result<T, String>) -> Result<T, Seq<char>> {
    match r {
        Ok(t) => Ok(t),
        Err(error) => Err(error@),
    }
}

/// The message that `value` is not a `what`, for the reason `error`.
pub open spec fn invalid_message(what: Seq<char>, value: Seq<char>, error: Seq<char>) -> Seq<char> {
    "Invalid "@ + what + " '"@ + value + "': "@ + error
}

fn invalid(what: &str, value: &str, error: &str) -> (message: String)
    ensures
        message@ == invalid_message(what@, value@, error@),
{
    let mut message: String = "Invalid ".to_owned();
    message.append(what);
    message.append(" '");
    message.append(value);
    message.append("': ");
    message.append(error);
    message
}

/// The settings after `--count value`, where `value` reads as `parsed`.
pub open spec fn counted(
    settings: Settings,
    value: Seq<char>,
    parsed: Result<u16, Seq<char>>,
) -> Result<Settings, Refusal> {
    match parsed {
        Ok(count) => if count > 0 {
            Ok(Settings { count, ..settings })
        } else {
            Err(Refusal::Message("Probe count must be greater than zero"@))
        },
        Err(error) => Err(Refusal::Message(invalid_message("probe count"@, value, error))),
    }
}

/// The settings after `--max-ttl value`, where `value` reads as `parsed`.
pub open spec fn limited(
    settings: Settings,
    value: Seq<char>,
    parsed: Result<u8, Seq<char>>,
) -> Result<Settings, Refusal> {
    match parsed {
        Ok(max_ttl) => if max_ttl > 0 {
            Ok(Settings { max_ttl, explicit_max_ttl: true, ..settings })
        } else {
            Err(Refusal::Message("Max TTL must be greater than zero"@))
        },
        Err(error) => Err(Refusal::Message(invalid_message("max TTL"@, value, error))),
    }
}

/// The settings after `--ttl value`, where `value` reads as `parsed`.
pub open spec fn pinned(
    settings: Settings,
    value: Seq<char>,
    parsed: Result<u8, Seq<char>>,
) -> Result<Settings, Refusal> {
    match parsed {
        Ok(ttl) => if ttl > 0 {
            Ok(Settings { ttl: Some(ttl), ..settings })
        } else {
            Err(Refusal::Message("TTL must be greater than zero"@))
        },
        Err(error) => Err(Refusal::Message(invalid_message("TTL"@, value, error))),
    }
}

/// The settings after `--interval value`, where `value` reads as `parsed`.
pub open spec fn paced(
    settings: Settings,
    value: Seq<char>,
    parsed: IntervalReading,
) -> Result<Settings, Refusal> {
    match parsed {
        IntervalReading::Positive(interval_nanos) => Ok(Settings { interval_nanos, ..settings }),
        IntervalReading::OutOfRange => Err(Refusal::IntervalOutOfRange),
        IntervalReading::NotPositive => Err(
            Refusal::Message("Interval must be greater than zero"@),
        ),
        IntervalReading::Malformed(error) => Err(
            Refusal::Message(invalid_message("interval"@, value, error@)),
        ),
    }
}

/// `outcome`, with the error's view.
pub open spec fn outcome_view(outcome: Result<Settings, CommandError>) -> Result<
    Settings,
    Refusal,
> {
    match outcome {
        Ok(settings) => Ok(settings),
        Err(error) => Err(error@),
    }
}

/// Takes `--count value`, given what `value` reads as.
pub fn accept_count(settings: Settings, value: &str, parsed: Result<u16, String>) -> (outcome:
    Result<Settings, CommandError>)
    ensures
        outcome_view(outcome) == counted(settings, value@, reading(parsed)),
{
    match parsed {
        Ok(count) => if count > 0 {
            Ok(Settings { count, ..settings })
        } else {
            Err(CommandError::Message("Probe count must be greater than zero".to_owned()))
        },
        Err(error) => Err(CommandError::Message(invalid("probe count", value, error.as_str()))),
    }
}

/// Takes `--max-ttl value`, given what `value` reads as.
pub fn accept_max_ttl(settings: Settings, value: &str, parsed: Result<u8, String>) -> (outcome:
    Result<Settings, CommandError>)
    ensures
        outcome_view(outcome) == limited(settings, value@, reading(parsed)),
{
    match parsed {
        Ok(max_ttl) => if max_ttl > 0 {
            Ok(Settings { max_ttl, explicit_max_ttl: true, ..settings })
        } else {
            Err(CommandError::Message("Max TTL must be greater than zero".to_owned()))
        },
        Err(error) => Err(CommandError::Message(invalid("max TTL", value, error.as_str()))),
    }
}

/// Takes `--ttl value`, given what `value` reads as.
pub fn accept_ttl(settings: Settings, value: &str, parsed: Result<u8, String>) -> (outcome: Result<
    Settings,
    CommandError,
>)
    ensures
        outcome_view(outcome) == pinned(settings, value@, reading(parsed)),
{
    match parsed {
        Ok(ttl) => if ttl > 0 {
            Ok(Settings { ttl: Some(ttl), ..settings })
        } else {
            Err(CommandError::Message("TTL must be greater than zero".to_owned()))
        },
        Err(error) => Err(CommandError::Message(invalid("TTL", value, error.as_str()))),
    }
}

/// Takes `--interval value`, given what `value` reads as.
pub fn accept_interval(settings: Settings, value: &str, parsed: &IntervalReading) -> (outcome:
    Result<Settings, CommandError>)
    ensures
        outcome_view(outcome) == paced(settings, value@, *parsed),
{
    match parsed {
        IntervalReading::Positive(nanos) => Ok(Settings { interval_nanos: *nanos, ..settings }),
        IntervalReading::OutOfRange => Err(CommandError::IntervalOutOfRange),
        IntervalReading::NotPositive => Err(
            CommandError::Message("Interval must be greater than zero".to_owned()),
        ),
        IntervalReading::Malformed(error) => Err(
            CommandError::Message(invalid("interval", value, error.as_str())),
        ),
    }
}

/// An option of the command line.
#[derive(Debug, Clone, Copy, PartialEq, Eq)]
pub enum OptionName {
    Count,
    MaxTtl,
    Ttl,
    Interval,
    Trace,
    Once,
    Verbose,
    Continuous,
    Live,
    Scroll,
}

/// The option that an argument names.
pub open spec fn option_named(arg: Seq<char>) -> Option<OptionName> {
    if arg == "--count"@ {
        Some(OptionName::Count)
    } else if arg == "--max-ttl"@ {
        Some(OptionName::MaxTtl)
    } else if arg == "--ttl"@ {
        Some(OptionName::Ttl)
    } else if arg == "--interval"@ {
        Some(OptionName::Interval)
    } else if arg == "--trace"@ {
        Some(OptionName::Trace)
    } else if arg == "--once"@ {
        Some(OptionName::Once)
    } else if arg == "--verbose"@ {
        Some(OptionName::Verbose)
    } else if arg == "--continuous"@ {
        Some(OptionName::Continuous)
    } else if arg == "--live"@ {
        Some(OptionName::Live)
    } else if arg == "--scroll"@ {
        Some(OptionName::Scroll)
    } else {
        None
    }
}

/// The option that an argument names.
pub fn option_name(arg: &String) -> (name: Option<OptionName>)
    ensures
        name == option_named(arg@),
{
    if is_text(arg, "--count") {
        Some(OptionName::Count)
    } else if is_text(arg, "--max-ttl") {
        Some(OptionName::MaxTtl)
    } else if is_text(arg, "--ttl") {
        Some(OptionName::Ttl)
    } else if is_text(arg, "--interval") {
        Some(OptionName::Interval)
    } else if is_text(arg, "--trace") {
        Some(OptionName::Trace)
    } else if is_text(arg, "--once") {
        Some(OptionName::Once)
    } else if is_text(arg, "--verbose") {
        Some(OptionName::Verbose)
    } else if is_text(arg, "--continuous") {
        Some(OptionName::Continuous)
    } else if is_text(arg, "--live") {
        Some(OptionName::Live)
    } else if is_text(arg, "--scroll") {
        Some(OptionName::Scroll)
    } else {
        None
    }
}

/// The message that no value follows an option.
pub open spec fn missing_value(name: OptionName) -> Seq<char> {
    match name {
        OptionName::Count => "Missing value after --count"@,
        OptionName::MaxTtl => "Missing value after --max-ttl"@,
        OptionName::Ttl => "Missing value after --ttl"@,
        _ => "Missing value after --interval"@,
    }
}

/// Whether a value follows an option.
pub open spec fn takes_value(name: OptionName) -> bool {
    name == OptionName::Count || name == OptionName::MaxTtl || name == OptionName::Ttl || name
        == OptionName::Interval
}

/// The settings after an option that takes a value.
pub open spec fn with_value(
    name: OptionName,
    settings: Settings,
    value: Seq<char>,
    interval: IntervalReading,
) -> Result<Settings, Refusal> {
    match name {
        OptionName::Count => counted(settings, value, u16_reading(value)),
        OptionName::MaxTtl => limited(settings, value, u8_reading(value)),
        OptionName::Ttl => pinned(settings, value, u8_reading(value)),
        _ => paced(settings, value, interval),
    }
}

/// The settings after an option that takes no value.
pub open spec fn with_flag(name: OptionName, settings: Settings) -> Settings {
    match name {
        OptionName::Trace => Settings { trace: true, ..settings },
        OptionName::Once => Settings { continuous: false, ..settings },
        OptionName::Verbose => Settings { verbose: true, ..settings },
        OptionName::Continuous => Settings { continuous: true, ..settings },
        OptionName::Live => Settings { scroll: false, ..settings },
        OptionName::Scroll => Settings { scroll: true, ..settings },
        _ => settings,
    }
}

/// The settings once the options from `args[at]` on are taken, one after the
/// other. `intervals[i]` is what `args[i]` reads as, taken for an interval.
pub open spec fn options_taken(
    args: Seq<Seq<char>>,
    intervals: Seq<IntervalReading>,
    at: int,
    settings: Settings,
) -> Result<Settings, Refusal>
    decreases args.len() - at,
{
    if at >= args.len() {
        Ok(settings)
    } else {
        match option_named(args[at]) {
            None => Err(Refusal::Usage),
            Some(name) => if !takes_value(name) {
                options_taken(args, intervals, at + 1, with_flag(name, settings))
            } else if at + 1 >= args.len() {
                Err(Refusal::Message(missing_value(name)))
            } else {
                match with_value(name, settings, args[at + 1], intervals[at + 1]) {
                    Ok(next) => options_taken(args, intervals, at + 2, next),
                    Err(refusal) => Err(refusal),
                }
            },
        }
    }
}

/// The settings, unless two of them contradict each other.
pub open spec fn consistent(settings: Settings) -> Result<Settings, Refusal> {
    if settings.ttl is Some && settings.explicit_max_ttl {
        Err(Refusal::Message("--ttl cannot be used with --max-ttl"@))
    } else if settings.ttl is Some && settings.trace {
        Err(Refusal::Message("--ttl cannot be used with --trace"@))
    } else {
        Ok(settings)
    }
}

/// The settings that the options from `args[2]` on ask for.
pub open spec fn settings_asked(
    args: Seq<Seq<char>>,
    intervals: Seq<IntervalReading>,
) -> Result<Settings, Refusal> {
    match options_taken(args, intervals, 2, default_settings()) {
        Ok(settings) => consistent(settings),
        Err(refusal) => Err(refusal),
    }
}

/// Whether an argument asks for the version.
pub open spec fn is_version_flag(arg: Seq<char>) -> bool {
    arg == "--version"@ || arg == "-V"@
}

/// Whether the command line names a target, which is then to be resolved.
pub open spec fn names_target(args: Seq<Seq<char>>) -> bool {
    args.len() >= 2 && !is_version_flag(args[1])
}

/// What a command line asks for, with the settings of a trace.
pub open spec fn command_asked(
    args: Seq<Seq<char>>,
    intervals: Seq<IntervalReading>,
) -> Result<Option<Settings>, Refusal> {
    if args.len() < 2 {
        Err(Refusal::Usage)
    } else if is_version_flag(args[1]) {
        if args.len() > 2 {
            Err(Refusal::Usage)
        } else {
            Ok(None)
        }
    } else {
        match settings_asked(args, intervals) {
            Ok(settings) => Ok(Some(settings)),
            Err(refusal) => Err(refusal),
        }
    }
}

/// Takes an option that takes a value.
fn take_value(name: OptionName, settings: Settings, value: &str, interval: &IntervalReading) -> (outcome:
    Result<Settings, CommandError>)
    requires
        takes_value(name),
    ensures
        outcome_view(outcome) == with_value(name, settings, value@, *interval),
{
    match name {
        OptionName::Count => accept_count(settings, value, parse_u16(value)),
        OptionName::MaxTtl => accept_max_ttl(settings, value, parse_u8(value)),
        OptionName::Ttl => accept_ttl(settings, value, parse_u8(value)),
        _ => accept_interval(settings, value, interval),
    }
}

/// Takes an option that takes no value.
fn take_flag(name: OptionName, settings: Settings) -> (next: Settings)
    ensures
        next == with_flag(name, settings),
{
    match name {
        OptionName::Trace => Settings { trace: true, ..settings },
        OptionName::Once => Settings { continuous: false, ..settings },
        OptionName::Verbose => Settings { verbose: true, ..settings },
        OptionName::Continuous => Settings { continuous: true, ..settings },
        OptionName::Live => Settings { scroll: false, ..settings },
        OptionName::Scroll => Settings { scroll: true, ..settings },
        _ => settings,
    }
}

fn missing(name: OptionName) -> (message: String)
    ensures
        message@ == missing_value(name),
{
    match name {
        OptionName::Count => "Missing value after --count".to_owned(),
        OptionName::MaxTtl => "Missing value after --max-ttl".to_owned(),
        OptionName::Ttl => "Missing value after --ttl".to_owned(),
        _ => "Missing value after --interval".to_owned(),
    }
}

/// Reads the options, which start behind the program's name and the target.
fn parse_options(args: &[String], intervals: &[IntervalReading]) -> (outcome: Result<
    Settings,
    CommandError,
>)
    requires
        args.len() >= 2,
        intervals.len() == args.len(),
    ensures
        outcome_view(outcome) == settings_asked(crate::text::texts(args@), intervals@),
{
    let ghost texts: Seq<Seq<char>> = crate::text::texts(args@);
    let mut settings: Settings = Settings {
        count: DEFAULT_PROBE_COUNT,
        max_ttl: DEFAULT_MAX_TTL,
        explicit_max_ttl: false,
        ttl: None,
        trace: false,
        verbose: false,
        continuous: true,
        scroll: true,
        interval_nanos: DEFAULT_INTERVAL_NANOS,
    };
    let mut at: usize = 2;
    while at < args.len()
        invariant
            texts == crate::text::texts(args@),
            2 <= at <= args.len(),
            intervals.len() == args.len(),
            options_taken(texts, intervals@, at as int, settings) == options_taken(
                texts,
                intervals@,
                2,
                default_settings(),
            ),
        decreases args.len() - at,
    {
        let name: OptionName = match option_name(&args[at]) {
            Some(name) => name,
            None => return Err(CommandError::Usage),
        };
        let wants_value: bool = match name {
            OptionName::Count | OptionName::MaxTtl | OptionName::Ttl | OptionName::Interval => true,
            _ => false,
        };
        if !wants_value {
            settings = take_flag(name, settings);
            at = at + 1;
        } else {
            if args.len() - at < 2 {
                return Err(CommandError::Message(missing(name)));
            }
            match take_value(name, settings, args[at + 1].as_str(), &intervals[at + 1]) {
                Ok(next) => {
                    settings = next;
                },
                Err(error) => return Err(error),
            }
            at = at + 2;
        }
    }
    if settings.ttl.is_some() && settings.explicit_max_ttl {
        return Err(CommandError::Message("--ttl cannot be used with --max-ttl".to_owned()));
    }
    if settings.ttl.is_some() && settings.trace {
        return Err(CommandError::Message("--ttl cannot be used with --trace".to_owned()));
    }
    Ok(settings)
}

fn version_flag(arg: &String) -> (is_flag: bool)
    ensures
        is_flag == is_version_flag(arg@),
{
    is_text(arg, "--version") || is_text(arg, "-V")
}

/// The argument that names the target, if the command line has one.
pub fn target_argument(args: &[String]) -> (target: Option<&String>)
    ensures
        match target {
            Some(t) => names_target(crate::text::texts(args@)) && *t == args@[1],
            None => !names_target(crate::text::texts(args@)),
        },
{
    if args.len() < 2 || version_flag(&args[1]) {
        None
    } else {
        Some(&args[1])
    }
}

/// Reads the command line `args`, of which the first is the program's name.
/// `resolved` is the address of the target, if one is named, and `intervals[i]`
/// is what `args[i]` reads as, taken for a number of seconds.
pub fn parse_command(
    args: &[String],
    resolved: Option<Ipv4Address>,
    intervals: &[IntervalReading],
) -> (command: Result<Command, CommandError>)
    requires
        intervals.len() == args.len(),
        names_target(crate::text::texts(args@)) ==> resolved is Some,
    ensures
        match command_asked(crate::text::texts(args@), intervals@) {
            Ok(None) => command == Ok::<Command, CommandError>(Command::Version),
            Ok(Some(settings)) => command matches Ok(Command::Trace(config)) && {
                &&& config.original_target@ == args@[1]@
                &&& Some(config.resolved_target) == resolved
                &&& config.has_settings(settings)
            },
            Err(refusal) => command matches Err(error) && error@ == refusal,
        },
{
    if args.len() < 2 {
        return Err(CommandError::Usage);
    }
    if version_flag(&args[1]) {
        if args.len() > 2 {
            return Err(CommandError::Usage);
        }
        return Ok(Command::Version);
    }
    let resolved_target: Ipv4Address = resolved.unwrap();
    let settings: Settings = match parse_options(args, intervals) {
        Ok(settings) => settings,
        Err(error) => return Err(error),
    };
    Ok(
        Command::Trace(
            ProbeConfig {
                original_target: args[1].clone(),
                resolved_target,
                count: settings.count,
                max_ttl: settings.max_ttl,
                ttl: settings.ttl,
                trace: settings.trace,
                verbose: settings.verbose,
                continuous: settings.continuous,
                scroll: settings.scroll,
                interval_nanos: settings.interval_nanos,
            },
        ),
    )
}

/// The two lines that say how the program is called.
pub open spec fn usage_text(program: Seq<char>) -> Seq<char> {
    "Usage: "@ + program
        + " <target> [--count <probes>] [--max-ttl <hops> | --ttl <hop>] [--trace] [--interval <seconds>] [--verbose] [--continuous | --once] [--scroll | --live]\n"@
        + "       "@ + program + " --version\n"@
}

/// The name under which the program was called.
pub open spec fn program_called(args: Seq<Seq<char>>) -> Seq<char> {
    if args.len() > 0 {
        args[0]
    } else {
        "rttmeter"@
    }
}

/// The two lines that say how the program is called, under the name that the
/// command line gives it.
pub fn usage(args: &[String]) -> (text: String)
    ensures
        text@ == usage_text(program_called(crate::text::texts(args@))),
{
    let program: String = if args.len() > 0 {
        args[0].clone()
    } else {
        "rttmeter".to_owned()
    };
    let mut text: String = "Usage: ".to_owned();
    text.append(program.as_str());
    text.append(
        " <target> [--count <probes>] [--max-ttl <hops> | --ttl <hop>] [--trace] [--interval <seconds>] [--verbose] [--continuous | --once] [--scroll | --live]\n",
    );
    text.append("       ");
    text.append(program.as_str());
    text.append(" --version\n");
    text
}

/// What is shown when a command line is refused, before the program ends: the
/// message, if there is one, in a line of its own, then the usage. There is no
/// such text where the program aborts.
pub fn refusal_text(error: &CommandError, args: &[String]) -> (text: String)
    requires
        error@ !is IntervalOutOfRange,
    ensures
        text@ == match error@ {
            Refusal::Message(message) => message + "\n"@ + usage_text(
                program_called(crate::text::texts(args@)),
            ),
            _ => usage_text(program_called(crate::text::texts(args@))),
        },
{
    match error {
        CommandError::Message(message) => {
            let mut text: String = message.clone();
            text.append("\n");
            text.append(usage(args).as_str());
            text
        },
        _ => usage(args),
    }
}

/// The address that the name `target` stands for. The dotted-decimal text of an
/// address is that address. Any other name stands for the first IPv4 address
/// among those that a lookup of it gave (`None` is an address of another kind).
pub open spec fn address_of(
    target: Seq<char>,
    lookup: Result<Vec<Option<Ipv4Address>>, String>,
    address: Result<Ipv4Address, String>,
) -> bool {
    if exists|ip: Ipv4Address| target == #[trigger] ip.dotted() {
        address matches Ok(ip) && target == ip.dotted()
    } else {
        match lookup {
            Ok(found) => match address {
                Ok(ip) => exists|i: int|
                    0 <= i < found.len() && found@[i] == Some(ip) && (forall|j: int|
                        0 <= j < i ==> #[trigger] found@[j] is None),
                Err(error) => error@ == "Target '"@ + target
                    + "' did not resolve to an IPv4 address"@ && (forall|j: int|
                    0 <= j < found.len() ==> #[trigger] found@[j] is None),
            },
            Err(reason) => address matches Err(error) && error@ == "Failed to resolve target '"@
                + target + "': "@ + reason@,
        }
    }
}

/// Decides what address a target has, given what a lookup of its name gave.
pub fn resolve_target(target: &str, lookup: &Result<Vec<Option<Ipv4Address>>, String>) -> (address:
    Result<Ipv4Address, String>)
    ensures
        address_of(target@, *lookup, address),
{
    match Ipv4Address::parse(target) {
        Some(ip) => return Ok(ip),
        None => {},
    }
    match lookup {
        Ok(found) => {
            let mut i: usize = 0;
            while i < found.len()
                invariant
                    i <= found.len(),
                    forall|ip: Ipv4Address| target@ != #[trigger] ip.dotted(),
                    *lookup == Ok::<Vec<Option<Ipv4Address>>, String>(*found),
                    forall|j: int| 0 <= j < i ==> #[trigger] found@[j] is None,
                decreases found.len() - i,
            {
                match found[i] {
                    Some(ip) => {
                        assert(found@[i as int] == Some(ip));
                        return Ok(ip);
                    },
                    None => {},
                }
                i = i + 1;
            }
            let mut error: String = "Target '".to_owned();
            error.append(target);
            error.append("' did not resolve to an IPv4 address");
            Err(error)
        },
        Err(reason) => {
            let mut error: String = "Failed to resolve target '".to_owned();
            error.append(target);
            error.append("': ");
            error.append(reason.as_str());
            Err(error)
        },
    }
}

impl ProbeConfig {
    /// The hops that are probed: the one that is pinned, all of them, or the
    /// target alone.
    pub open spec fn mode(self) -> ProbeMode {
        match self.ttl {
            Some(ttl) => ProbeMode::SingleTtl(ttl),
            None => if self.trace {
                ProbeMode::Trace
            } else {
                ProbeMode::AutoTtl
            },
        }
    }

    /// Whether the table is redrawn in place.
    pub open spec fn is_live(self) -> bool {
        self.continuous && !self.scroll && !self.verbose
    }
}

/// The hops that are probed.
pub fn selected_mode(config: &ProbeConfig) -> (mode: ProbeMode)
    ensures
        mode == config.mode(),
{
    match (config.ttl, config.trace) {
        (Some(ttl), _) => ProbeMode::SingleTtl(ttl),
        (None, true) => ProbeMode::Trace,
        (None, false) => ProbeMode::AutoTtl,
    }
}

/// Whether the table is redrawn in place.
pub fn should_use_live_refresh(config: &ProbeConfig) -> (live: bool)
    ensures
        live == config.is_live(),
{
    config.continuous && !config.scroll && !config.verbose
}

/// Whether events are reported below the table.
pub fn should_emit_events(config: &ProbeConfig) -> (emit: bool)
    ensures
        emit == (config.continuous && !config.is_live()),
{
    config.continuous && !should_use_live_refresh(config)
}

/// The name of the way in which the program runs.
pub fn run_mode_name(config: &ProbeConfig) -> (name: &'static str)
    ensures
        name@ == if config.continuous {
            "continuous"@
        } else {
            "once"@
        },
{
    if config.continuous {
        "continuous"
    } else {
        "once"
    }
}

/// The name of the way in which the table is shown.
pub fn output_mode_name(config: &ProbeConfig) -> (name: &'static str)
    ensures
        name@ == if config.is_live() {
            "live"@
        } else {
            "scroll"@
        },
{
    if should_use_live_refresh(config) {
        "live"
    } else {
        "scroll"
    }
}

/// The name of the choice of hops.
pub open spec fn mode_text(mode: ProbeMode) -> Seq<char> {
    match mode {
        ProbeMode::AutoTtl => "auto-ttl"@,
        ProbeMode::SingleTtl(_) => "single-ttl"@,
        ProbeMode::Trace => "trace"@,
    }
}

/// The name of the choice of hops.
pub fn mode_name(config: &ProbeConfig) -> (name: &'static str)
    ensures
        name@ == mode_text(config.mode()),
{
    match selected_mode(config) {
        ProbeMode::AutoTtl => "auto-ttl",
        ProbeMode::SingleTtl(_) => "single-ttl",
        ProbeMode::Trace => "trace",
    }
}

/// The hops that are probed, as the first line shows them.
pub open spec fn scope_text(config: ProbeConfig) -> Seq<char> {
    match config.mode() {
        ProbeMode::SingleTtl(ttl) => " ttl="@ + crate::text::decimal(ttl as nat),
        ProbeMode::AutoTtl => Seq::empty(),
        ProbeMode::Trace => " max_ttl="@ + crate::text::decimal(config.max_ttl as nat),
    }
}

/// The hops that are probed, as the first line shows them.
pub fn startup_scope_display(config: &ProbeConfig) -> (text: String)
    ensures
        text@ == scope_text(*config),
{
    match selected_mode(config) {
        ProbeMode::SingleTtl(ttl) => {
            let mut text: String = " ttl=".to_owned();
            append_decimal(&mut text, ttl as u64);
            text
        },
        ProbeMode::AutoTtl => String::new(),
        ProbeMode::Trace => {
            let mut text: String = " max_ttl=".to_owned();
            append_decimal(&mut text, config.max_ttl as u64);
            text
        },
    }
}

/// The line that the program starts with. `timeout` and `interval` are the
/// seconds to wait for a reply and between two sweeps, as text.
pub open spec fn startup_text(
    config: ProbeConfig,
    timeout: Seq<char>,
    interval: Seq<char>,
) -> Seq<char> {
    "Starting rttmeter target="@ + config.original_target@ + " resolved="@
        + config.resolved_target.dotted() + " count="@ + crate::text::decimal(config.count as nat)
        + scope_text(config) + " timeout="@ + timeout + "s interval="@ + interval + "s mode="@
        + mode_text(config.mode()) + " run="@ + (if config.continuous {
        "continuous"@
    } else {
        "once"@
    }) + " output="@ + if config.is_live() {
        "live"@
    } else {
        "scroll"@
    }
}

/// The line that the program starts with. `timeout` and `interval` are the
/// seconds to wait for a reply and between two sweeps, as text.
pub fn startup_line(config: &ProbeConfig, timeout: &str, interval: &str) -> (line: String)
    ensures
        line@ == startup_text(*config, timeout@, interval@),
{
    let mut line: String = "Starting rttmeter target=".to_owned();
    line.append(config.original_target.as_str());
    line.append(" resolved=");
    line.append(config.resolved_target.to_text().as_str());
    line.append(" count=");
    append_decimal(&mut line, config.count as u64);
    line.append(startup_scope_display(config).as_str());
    line.append(" timeout=");
    line.append(timeout);
    line.append("s interval=");
    line.append(interval);
    line.append("s mode=");
    line.append(mode_name(config));
    line.append(" run=");
    line.append(run_mode_name(config));
    line.append(" output=");
    line.append(output_mode_name(config));
    line
}

/// Every setting that the options can bring about is one that makes sense: at
/// least one probe is sent, at least one hop is allowed, and a pinned hop is a
/// hop, which goes neither with a trace nor with a limit of its own.
pub proof fn law_settings_make_sense(args: Seq<Seq<char>>, intervals: Seq<IntervalReading>)
    ensures
        settings_asked(args, intervals) matches Ok(settings) ==> {
            &&& settings.count > 0
            &&& settings.max_ttl > 0
            &&& settings.ttl matches Some(ttl) ==> {
                &&& ttl > 0
                &&& !settings.trace
                &&& settings.max_ttl == DEFAULT_MAX_TTL
            }
        },
{
    lemma_options_keep_sense(args, intervals, 2, default_settings());
}

spec fn sensible(settings: Settings) -> bool {
    &&& settings.count > 0
    &&& settings.max_ttl > 0
    &&& settings.ttl != Some(0u8)
    &&& !settings.explicit_max_ttl ==> settings.max_ttl == DEFAULT_MAX_TTL
}

proof fn lemma_options_keep_sense(
    args: Seq<Seq<char>>,
    intervals: Seq<IntervalReading>,
    at: int,
    settings: Settings,
)
    requires
        sensible(settings),
    ensures
        options_taken(args, intervals, at, settings) matches Ok(taken) ==> sensible(taken),
    decreases args.len() - at,
{
    if at < args.len() {
        if let Some(name) = option_named(args[at]) {
            if !takes_value(name) {
                lemma_options_keep_sense(args, intervals, at + 1, with_flag(name, settings));
            } else if at + 1 < args.len() {
                if let Ok(next) = with_value(name, settings, args[at + 1], intervals[at + 1]) {
                    lemma_options_keep_sense(args, intervals, at + 2, next);
                }
            }
        }
    }
}

/// A pinned hop goes neither with a trace nor with a limit of hops, in whatever
/// order the options stand.
pub proof fn law_pinned_hop_excludes_trace_and_limit(
    args: Seq<Seq<char>>,
    intervals: Seq<IntervalReading>,
)
    ensures
        options_taken(args, intervals, 2, default_settings()) matches Ok(taken) ==> (
        settings_asked(args, intervals) is Err <==> taken.ttl is Some && (taken.explicit_max_ttl
            || taken.trace)),
{
}

/// Options are taken one after the other: more of them, appended, are taken on
/// from the settings that the first ones brought about.
pub proof fn law_options_compose(
    args: Seq<Seq<char>>,
    more: Seq<Seq<char>>,
    intervals: Seq<IntervalReading>,
    more_intervals: Seq<IntervalReading>,
    at: int,
    settings: Settings,
)
    requires
        0 <= at <= args.len(),
        intervals.len() == args.len(),
        more_intervals.len() == more.len(),
        options_taken(args, intervals, at, settings) is Ok,
    ensures
        options_taken(args + more, intervals + more_intervals, at, settings) == options_taken(
            args + more,
            intervals + more_intervals,
            args.len() as int,
            options_taken(args, intervals, at, settings)->Ok_0,
        ),
    decreases args.len() - at,
{
    if at < args.len() {
        let all = args + more;
        let all_intervals = intervals + more_intervals;
        assert(all[at] == args[at]);
        if let Some(name) = option_named(args[at]) {
            if !takes_value(name) {
                law_options_compose(
                    args,
                    more,
                    intervals,
                    more_intervals,
                    at + 1,
                    with_flag(name, settings),
                );
            } else if at + 1 < args.len() {
                assert(all[at + 1] == args[at + 1]);
                assert(all_intervals[at + 1] == intervals[at + 1]);
                if let Ok(next) = with_value(name, settings, args[at + 1], intervals[at + 1]) {
                    law_options_compose(args, more, intervals, more_intervals, at + 2, next);
                }
            }
        }
    }
}

/// The arguments that name an option are all different.
proof fn lemma_option_names()
    ensures
        option_named("--count"@) == Some(OptionName::Count),
        option_named("--max-ttl"@) == Some(OptionName::MaxTtl),
        option_named("--ttl"@) == Some(OptionName::Ttl),
        option_named("--interval"@) == Some(OptionName::Interval),
        option_named("--trace"@) == Some(OptionName::Trace),
        option_named("--once"@) == Some(OptionName::Once),
        option_named("--verbose"@) == Some(OptionName::Verbose),
        option_named("--continuous"@) == Some(OptionName::Continuous),
        option_named("--live"@) == Some(OptionName::Live),
        option_named("--scroll"@) == Some(OptionName::Scroll),
{
    reveal_strlit("--count");
    reveal_strlit("--max-ttl");
    reveal_strlit("--ttl");
    reveal_strlit("--interval");
    reveal_strlit("--trace");
    reveal_strlit("--once");
    reveal_strlit("--verbose");
    reveal_strlit("--continuous");
    reveal_strlit("--live");
    reveal_strlit("--scroll");
    assert("--count"@.len() == 7 && "--max-ttl"@.len() == 9 && "--ttl"@.len() == 5);
    assert("--interval"@.len() == 10 && "--trace"@.len() == 7 && "--once"@.len() == 6);
    assert("--verbose"@.len() == 9 && "--continuous"@.len() == 12 && "--live"@.len() == 6);
    assert("--scroll"@.len() == 8);
    assert("--count"@[2] == 'c' && "--trace"@[2] == 't');
    assert("--max-ttl"@[2] == 'm' && "--verbose"@[2] == 'v');
    assert("--once"@[2] == 'o' && "--live"@[2] == 'l');
}

/// The argument is an option that takes no value.
pub open spec fn is_flag(arg: Seq<char>) -> bool {
    arg == "--trace"@ || arg == "--once"@ || arg == "--verbose"@ || arg == "--continuous"@ || arg
        == "--live"@ || arg == "--scroll"@
}

/// The argument is an option that takes a value.
pub open spec fn is_valued(arg: Seq<char>) -> bool {
    arg == "--count"@ || arg == "--max-ttl"@ || arg == "--ttl"@ || arg == "--interval"@
}

/// Where no option is given, one probe is sent to each hop, the limit is 30 hops,
/// no hop is pinned or traced, nothing is noted, and the run goes on with a
/// scrolling table every half second.
pub proof fn law_settings_without_options(args: Seq<Seq<char>>, intervals: Seq<IntervalReading>)
    requires
        args.len() == 2,
    ensures
        settings_asked(args, intervals) matches Ok(settings) && {
            &&& settings.count == 1
            &&& settings.max_ttl == 30
            &&& settings.ttl is None
            &&& !settings.trace
            &&& !settings.verbose
            &&& settings.continuous
            &&& settings.scroll
            &&& settings.interval_nanos == 500_000_000
        },
        options_taken(args, intervals, 2, default_settings()) matches Ok(settings)
            && !settings.explicit_max_ttl && Ok::<Settings, Refusal>(settings) == settings_asked(
            args,
            intervals,
        ),
{
}

/// An option without a value sets what it is named after, and leaves every other
/// setting as the options before it made it.
pub proof fn law_flag_sets_its_own_setting(
    args: Seq<Seq<char>>,
    intervals: Seq<IntervalReading>,
    flag: Seq<char>,
    reading: IntervalReading,
)
    requires
        args.len() >= 2,
        intervals.len() == args.len(),
        options_taken(args, intervals, 2, default_settings()) is Ok,
        is_flag(flag),
    ensures
        ({
            let before = options_taken(args, intervals, 2, default_settings())->Ok_0;
            options_taken(
                args.push(flag),
                intervals.push(reading),
                2,
                default_settings(),
            ) matches Ok(after) && {
                &&& after.count == before.count
                &&& after.max_ttl == before.max_ttl
                &&& after.explicit_max_ttl == before.explicit_max_ttl
                &&& after.ttl == before.ttl
                &&& after.interval_nanos == before.interval_nanos
                &&& after.trace == (before.trace || flag == "--trace"@)
                &&& after.verbose == (before.verbose || flag == "--verbose"@)
                &&& flag == "--once"@ ==> !after.continuous
                &&& flag == "--continuous"@ ==> after.continuous
                &&& flag != "--once"@ && flag != "--continuous"@ ==> after.continuous
                    == before.continuous
                &&& flag == "--live"@ ==> !after.scroll
                &&& flag == "--scroll"@ ==> after.scroll
                &&& flag != "--live"@ && flag != "--scroll"@ ==> after.scroll == before.scroll
            }
        }),
{
    lemma_option_names();
    let before = options_taken(args, intervals, 2, default_settings())->Ok_0;
    let n = args.len() as int;
    law_options_compose(args, seq![flag], intervals, seq![reading], 2, default_settings());
    assert(args + seq![flag] =~= args.push(flag));
    assert(intervals + seq![reading] =~= intervals.push(reading));
    let name = option_named(flag)->0;
    assert(args.push(flag)[n] == flag);
    assert(options_taken(args.push(flag), intervals.push(reading), n + 1, with_flag(name, before))
        == Ok::<Settings, Refusal>(with_flag(name, before)));
}

/// What a value behind an option does. A count is a number from 1 to 65535, a
/// limit and a pinned hop are numbers from 1 to 255, and an interval is a
/// duration. The option sets what it is named after, and leaves every other
/// setting as the options before it made it. Any other value is refused, with
/// the reason.
pub proof fn law_value_sets_its_own_setting(
    args: Seq<Seq<char>>,
    intervals: Seq<IntervalReading>,
    option: Seq<char>,
    value: Seq<char>,
    ignored: IntervalReading,
    reading: IntervalReading,
)
    requires
        args.len() >= 2,
        intervals.len() == args.len(),
        options_taken(args, intervals, 2, default_settings()) is Ok,
        is_valued(option),
    ensures
        ({
            let before = options_taken(args, intervals, 2, default_settings())->Ok_0;
            let outcome = options_taken(
                args.push(option).push(value),
                intervals.push(ignored).push(reading),
                2,
                default_settings(),
            );
            let number = unsigned_value(value);
            &&& outcome matches Ok(after) ==> {
                &&& after.trace == before.trace
                &&& after.verbose == before.verbose
                &&& after.continuous == before.continuous
                &&& after.scroll == before.scroll
                &&& option != "--count"@ ==> after.count == before.count
                &&& option != "--max-ttl"@ ==> after.max_ttl == before.max_ttl
                    && after.explicit_max_ttl == before.explicit_max_ttl
                &&& option != "--ttl"@ ==> after.ttl == before.ttl
                &&& option != "--interval"@ ==> after.interval_nanos == before.interval_nanos
            }
            &&& option == "--count"@ ==> {
                &&& (number matches Some(n) && 1 <= n <= 65535) ==> (outcome matches Ok(after)
                    && after.count == number->0)
                &&& number == Some(0nat) ==> outcome == Err::<Settings, Refusal>(
                    Refusal::Message("Probe count must be greater than zero"@),
                )
                &&& !(number matches Some(n) && n <= 65535) ==> outcome == Err::<
                    Settings,
                    Refusal,
                >(
                    Refusal::Message(
                        "Invalid "@ + "probe count"@ + " '"@ + value + "': "@ + u16_parse_error(
                            value,
                        ),
                    ),
                )
            }
            &&& option == "--max-ttl"@ ==> {
                &&& (number matches Some(n) && 1 <= n <= 255) ==> (outcome matches Ok(after)
                    && after.max_ttl == number->0 && after.explicit_max_ttl)
                &&& number == Some(0nat) ==> outcome == Err::<Settings, Refusal>(
                    Refusal::Message("Max TTL must be greater than zero"@),
                )
                &&& !(number matches Some(n) && n <= 255) ==> outcome == Err::<Settings, Refusal>(
                    Refusal::Message(
                        "Invalid "@ + "max TTL"@ + " '"@ + value + "': "@ + u8_parse_error(value),
                    ),
                )
            }
            &&& option == "--ttl"@ ==> {
                &&& (number matches Some(n) && 1 <= n <= 255) ==> (outcome matches Ok(after)
                    && (after.ttl matches Some(ttl) && ttl == number->0))
                &&& number == Some(0nat) ==> outcome == Err::<Settings, Refusal>(
                    Refusal::Message("TTL must be greater than zero"@),
                )
                &&& !(number matches Some(n) && n <= 255) ==> outcome == Err::<Settings, Refusal>(
                    Refusal::Message(
                        "Invalid "@ + "TTL"@ + " '"@ + value + "': "@ + u8_parse_error(value),
                    ),
                )
            }
            &&& option == "--interval"@ ==> match reading {
                IntervalReading::Positive(nanos) => outcome matches Ok(after)
                    && after.interval_nanos == nanos,
                IntervalReading::OutOfRange => outcome == Err::<Settings, Refusal>(
                    Refusal::IntervalOutOfRange,
                ),
                IntervalReading::NotPositive => outcome == Err::<Settings, Refusal>(
                    Refusal::Message("Interval must be greater than zero"@),
                ),
                IntervalReading::Malformed(reason) => outcome == Err::<Settings, Refusal>(
                    Refusal::Message(
                        "Invalid "@ + "interval"@ + " '"@ + value + "': "@ + reason@,
                    ),
                ),
            }
        }),
{
    lemma_option_names();
    let before = options_taken(args, intervals, 2, default_settings())->Ok_0;
    let n = args.len() as int;
    let all = args.push(option).push(value);
    let readings = intervals.push(ignored).push(reading);
    law_options_compose(
        args,
        seq![option, value],
        intervals,
        seq![ignored, reading],
        2,
        default_settings(),
    );
    assert(args + seq![option, value] =~= all);
    assert(intervals + seq![ignored, reading] =~= readings);
    assert(all[n] == option && all[n + 1] == value && readings[n + 1] == reading);
    let name = option_named(option)->0;
    assert(takes_value(name));
    if let Ok(next) = with_value(name, before, value, reading) {
        assert(options_taken(all, readings, n + 2, next) == Ok::<Settings, Refusal>(next));
    }
}

/// An argument that is no option, where an option should stand, is refused with
/// the usage. An option whose value is missing is refused by its name.
pub proof fn law_unknown_and_incomplete_options_are_refused(
    args: Seq<Seq<char>>,
    intervals: Seq<IntervalReading>,
    arg: Seq<char>,
    reading: IntervalReading,
)
    requires
        args.len() >= 2,
        intervals.len() == args.len(),
        options_taken(args, intervals, 2, default_settings()) is Ok,
    ensures
        ({
            let outcome = options_taken(
                args.push(arg),
                intervals.push(reading),
                2,
                default_settings(),
            );
            &&& !is_flag(arg) && !is_valued(arg) ==> outcome == Err::<Settings, Refusal>(
                Refusal::Usage,
            )
            &&& arg == "--count"@ ==> outcome == Err::<Settings, Refusal>(
                Refusal::Message("Missing value after --count"@),
            )
            &&& arg == "--max-ttl"@ ==> outcome == Err::<Settings, Refusal>(
                Refusal::Message("Missing value after --max-ttl"@),
            )
            &&& arg == "--ttl"@ ==> outcome == Err::<Settings, Refusal>(
                Refusal::Message("Missing value after --ttl"@),
            )
            &&& arg == "--interval"@ ==> outcome == Err::<Settings, Refusal>(
                Refusal::Message("Missing value after --interval"@),
            )
        }),
{
    lemma_option_names();
    let n = args.len() as int;
    law_options_compose(args, seq![arg], intervals, seq![reading], 2, default_settings());
    assert(args + seq![arg] =~= args.push(arg));
    assert(intervals + seq![reading] =~= intervals.push(reading));
    assert(args.push(arg)[n] == arg);
}

/// Arguments that are refused stay refused, for the same reason, whatever follows
/// them, unless what was missing was a value.
pub proof fn law_refusal_stands(
    args: Seq<Seq<char>>,
    more: Seq<Seq<char>>,
    intervals: Seq<IntervalReading>,
    more_intervals: Seq<IntervalReading>,
    at: int,
    settings: Settings,
)
    requires
        0 <= at <= args.len(),
        intervals.len() == args.len(),
        more_intervals.len() == more.len(),
        options_taken(args, intervals, at, settings) is Err,
        forall|name: OptionName|
            options_taken(args, intervals, at, settings) != Err::<Settings, Refusal>(
                Refusal::Message(#[trigger] missing_value(name)),
            ),
    ensures
        options_taken(args + more, intervals + more_intervals, at, settings) == options_taken(
            args,
            intervals,
            at,
            settings,
        ),
    decreases args.len() - at,
{
    if at < args.len() {
        let all = args + more;
        let all_intervals = intervals + more_intervals;
        assert(all[at] == args[at]);
        if let Some(name) = option_named(args[at]) {
            if !takes_value(name) {
                law_refusal_stands(
                    args,
                    more,
                    intervals,
                    more_intervals,
                    at + 1,
                    with_flag(name, settings),
                );
            } else if at + 1 < args.len() {
                assert(all[at + 1] == args[at + 1]);
                assert(all_intervals[at + 1] == intervals[at + 1]);
                if let Ok(next) = with_value(name, settings, args[at + 1], intervals[at + 1]) {
                    law_refusal_stands(args, more, intervals, more_intervals, at + 2, next);
                }
            } else {
                assert(options_taken(args, intervals, at, settings) == Err::<Settings, Refusal>(
                    Refusal::Message(missing_value(name)),
                ));
            }
        }
    }
}

/// A setting is changed by its own options alone: where none of them stands
/// among the arguments from `at` on, the setting is as it was before them. So the
/// count is that of the last `--count`, whatever options follow it.
pub proof fn law_settings_change_by_their_own_options(
    args: Seq<Seq<char>>,
    intervals: Seq<IntervalReading>,
    at: int,
    settings: Settings,
)
    requires
        0 <= at,
        options_taken(args, intervals, at, settings) is Ok,
    ensures
        ({
            let after = options_taken(args, intervals, at, settings)->Ok_0;
            let rest = args.skip(at);
            &&& !rest.contains("--count"@) ==> after.count == settings.count
            &&& !rest.contains("--max-ttl"@) ==> after.max_ttl == settings.max_ttl
                && after.explicit_max_ttl == settings.explicit_max_ttl
            &&& !rest.contains("--ttl"@) ==> after.ttl == settings.ttl
            &&& !rest.contains("--interval"@) ==> after.interval_nanos == settings.interval_nanos
            &&& !rest.contains("--trace"@) ==> after.trace == settings.trace
            &&& !rest.contains("--verbose"@) ==> after.verbose == settings.verbose
            &&& !rest.contains("--once"@) && !rest.contains("--continuous"@) ==> after.continuous
                == settings.continuous
            &&& !rest.contains("--live"@) && !rest.contains("--scroll"@) ==> after.scroll
                == settings.scroll
        }),
    decreases args.len() - at,
{
    if at < args.len() {
        let rest = args.skip(at);
        assert(rest[0] == args[at]);
        let name = option_named(args[at])->0;
        let step = if takes_value(name) {
            2int
        } else {
            1
        };
        let next = if takes_value(name) {
            with_value(name, settings, args[at + 1], intervals[at + 1])->Ok_0
        } else {
            with_flag(name, settings)
        };
        assert(options_taken(args, intervals, at, settings) == options_taken(
            args,
            intervals,
            at + step,
            next,
        ));
        law_settings_change_by_their_own_options(args, intervals, at + step, next);
        assert forall|arg: Seq<char>| #[trigger] args.skip(at + step).contains(
            arg,
        ) implies rest.contains(arg) by {
            let later = args.skip(at + step);
            let i = choose|i: int| 0 <= i < later.len() && later[i] == arg;
            assert(rest[i + step] == arg);
        }
    }
}

/// A pinned hop contradicts a limit of its own and a trace, and nothing else is a
/// contradiction: other settings stand as the options made them.
pub proof fn law_contradictions_are_refused(args: Seq<Seq<char>>, intervals: Seq<IntervalReading>)
    requires
        options_taken(args, intervals, 2, default_settings()) is Ok,
    ensures
        ({
            let taken = options_taken(args, intervals, 2, default_settings())->Ok_0;
            let asked = settings_asked(args, intervals);
            &&& taken.ttl is Some && taken.explicit_max_ttl ==> asked == Err::<Settings, Refusal>(
                Refusal::Message("--ttl cannot be used with --max-ttl"@),
            )
            &&& taken.ttl is Some && !taken.explicit_max_ttl && taken.trace ==> asked == Err::<
                Settings,
                Refusal,
            >(Refusal::Message("--ttl cannot be used with --trace"@))
            &&& taken.ttl is None ==> asked == Ok::<Settings, Refusal>(taken)
            &&& !taken.explicit_max_ttl && !taken.trace ==> asked == Ok::<Settings, Refusal>(taken)
        }),
{
}

/// Arguments whose options are refused are refused for the same reason.
pub proof fn law_refused_options_refuse_the_command(
    args: Seq<Seq<char>>,
    intervals: Seq<IntervalReading>,
    refusal: Refusal,
)
    requires
        options_taken(args, intervals, 2, default_settings()) == Err::<Settings, Refusal>(refusal),
    ensures
        settings_asked(args, intervals) == Err::<Settings, Refusal>(refusal),
{
}

/// What the first arguments decide: without any there is only the usage to show,
/// `--version` and `-V` ask for the version if they stand alone, and anything
/// else is a target, whose settings the options behind it make.
pub proof fn law_first_argument_decides(args: Seq<Seq<char>>, intervals: Seq<IntervalReading>)
    ensures
        ({
            let asked = command_asked(args, intervals);
            let version = args.len() >= 2 && (args[1] == "--version"@ || args[1] == "-V"@);
            &&& args.len() < 2 ==> asked == Err::<Option<Settings>, Refusal>(Refusal::Usage)
            &&& version && args.len() == 2 ==> asked == Ok::<Option<Settings>, Refusal>(None)
            &&& version && args.len() > 2 ==> asked == Err::<Option<Settings>, Refusal>(
                Refusal::Usage,
            )
            &&& names_target(args) <==> args.len() >= 2 && !version
            &&& names_target(args) ==> match settings_asked(args, intervals) {
                Ok(settings) => asked == Ok::<Option<Settings>, Refusal>(Some(settings)),
                Err(refusal) => asked == Err::<Option<Settings>, Refusal>(refusal),
            }
        }),
{
}

/// A configuration holds each setting that was asked for.
pub proof fn law_configuration_holds_the_settings(config: ProbeConfig, settings: Settings)
    requires
        config.has_settings(settings),
    ensures
        config.count == settings.count,
        config.max_ttl == settings.max_ttl,
        config.ttl == settings.ttl,
        config.trace == settings.trace,
        config.verbose == settings.verbose,
        config.continuous == settings.continuous,
        config.scroll == settings.scroll,
        config.interval_nanos == settings.interval_nanos,
{
}

/// An error is seen as what it is, with its message.
pub proof fn law_error_is_seen_as_it_is(message: String, settings: Settings, error: CommandError)
    ensures
        CommandError::Usage@ == Refusal::Usage,
        CommandError::Message(message)@ == Refusal::Message(message@),
        CommandError::IntervalOutOfRange@ == Refusal::IntervalOutOfRange,
        outcome_view(Ok(settings)) == Ok::<Settings, Refusal>(settings),
        outcome_view(Err(error)) == Err::<Settings, Refusal>(error@),
{
}

/// A number reads as itself, with or without a sign in front of it. A text with
/// anything else in it than digits behind the sign is no number.
pub proof fn law_numbers_are_read(n: nat, s: Seq<char>, i: int)
    requires
        0 < i < s.len(),
        !crate::text::is_digit(s[i]),
    ensures
        unsigned_value(crate::text::decimal(n)) == Some(n),
        unsigned_value(seq!['+'] + crate::text::decimal(n)) == Some(n),
        unsigned_value(s) is None,
        unsigned_value(Seq::empty()) is None,
        unsigned_value(seq!['+']) is None,
{
    let d = crate::text::decimal(n);
    crate::text::law_decimal_round_trip(n);
    assert(crate::text::is_digit(d[0]));
    assert((seq!['+'] + d).skip(1) =~= d);
    if s[0] == '+' {
        assert(s.skip(1)[i - 1] == s[i]);
    }
}

/// The numbers that fit are those up to the greatest of their kind.
pub proof fn law_numbers_must_fit(s: Seq<char>)
    ensures
        u16_reading(s) is Ok <==> (unsigned_value(s) matches Some(n) && n <= 65535),
        u8_reading(s) is Ok <==> (unsigned_value(s) matches Some(n) && n <= 255),
        u16_reading(s) matches Ok(n) ==> unsigned_value(s) == Some(n as nat),
        u8_reading(s) matches Ok(n) ==> unsigned_value(s) == Some(n as nat),
{
}

/// The usage starts with the program's name and what it takes, and ends with how
/// to ask for the version. It names the program twice, and depends on nothing
/// else.
pub proof fn law_usage_names_the_program(program: Seq<char>, other: Seq<char>)
    ensures
        usage_text(program).take(7) == "Usage: "@,
        usage_text(program).subrange(7, 7 + program.len() as int) == program,
        usage_text(program).skip(
            usage_text(program).len() - " --version\n"@.len() - program.len(),
        ) == program + " --version\n"@,
        usage_text(program).len() - 2 * program.len() == usage_text(other).len() - 2 * other.len(),
        usage_text(program).subrange(
            7 + program.len() as int,
            usage_text(program).len() - " --version\n"@.len() - program.len(),
        ) == usage_text(other).subrange(
            7 + other.len() as int,
            usage_text(other).len() - " --version\n"@.len() - other.len(),
        ),
{
    reveal_strlit("Usage: ");
    let u = usage_text(program);
    let v = usage_text(other);
    let m = " --version\n"@.len();
    assert(u.take(7) =~= "Usage: "@);
    assert(u.subrange(7, 7 + program.len() as int) =~= program);
    assert(u.skip(u.len() - m - program.len()) =~= program + " --version\n"@);
    assert(u.subrange(7 + program.len() as int, u.len() - m - program.len()) =~= v.subrange(
        7 + other.len() as int,
        v.len() - m - other.len(),
    ));
}

/// The program is called by its first argument, if it has one.
pub proof fn law_program_is_called_by_its_first_argument(args: Seq<Seq<char>>)
    ensures
        args.len() > 0 ==> program_called(args) == args[0],
        args.len() == 0 ==> program_called(args) == "rttmeter"@,
{
}

/// The address of a target is decided: two answers to the same question agree.
/// The text of an address stands for that address whatever the lookup gave, and
/// any other name for the first IPv4 address that the lookup gave.
pub proof fn law_target_has_one_address(
    target: Seq<char>,
    lookup: Result<Vec<Option<Ipv4Address>>, String>,
    address: Result<Ipv4Address, String>,
    ip: Ipv4Address,
)
    requires
        address_of(target, lookup, address),
    ensures
        target == ip.dotted() ==> (address matches Ok(found) && found == ip),
        (forall|other: Ipv4Address| target != #[trigger] other.dotted()) ==> match lookup {
            Ok(found) => {
                &&& address is Ok <==> exists|i: int|
                    0 <= i < found@.len() && #[trigger] found@[i] is Some
                &&& forall|i: int|
                    0 <= i < found@.len() && #[trigger] found@[i] is Some && (forall|j: int|
                        0 <= j < i ==> #[trigger] found@[j] is None) ==> (address matches Ok(first)
                        && Some(first) == found@[i])
                &&& address matches Err(error) ==> error@ == "Target '"@ + target
                    + "' did not resolve to an IPv4 address"@
            },
            Err(reason) => address matches Err(error) && error@ == "Failed to resolve target '"@
                + target + "': "@ + reason@,
        },
{
    if target == ip.dotted() {
        let found = address->Ok_0;
        crate::address::law_dotted_is_unique(found, ip);
    } else if forall|other: Ipv4Address| target != #[trigger] other.dotted() {
        if let Ok(found) = lookup {
            if let Ok(first) = address {
                let k = choose|k: int|
                    0 <= k < found.len() && found@[k] == Some(first) && (forall|j: int|
                        0 <= j < k ==> #[trigger] found@[j] is None);
                assert(found@[k] is Some);
                assert forall|i: int|
                    0 <= i < found@.len() && #[trigger] found@[i] is Some && (forall|j: int|
                        0 <= j < i ==> #[trigger] found@[j] is None) implies Some(first)
                    == found@[i] by {
                    if i < k {
                        assert(found@[i] is None);
                    } else if k < i {
                        assert(found@[k] is None);
                    }
                }
            }
        }
    }
}

/// A pinned hop alone is probed, else all hops where a trace is asked for, and
/// else the target.
pub proof fn law_mode_follows_the_settings(config: ProbeConfig, hop: u8)
    ensures
        config.mode() == ProbeMode::SingleTtl(hop) <==> config.ttl == Some(hop),
        config.mode() == ProbeMode::Trace <==> config.ttl is None && config.trace,
        config.mode() == ProbeMode::AutoTtl <==> config.ttl is None && !config.trace,
{
}

/// The table is redrawn in place only in a run that goes on, that neither scrolls
/// nor takes notes.
pub proof fn law_live_tables_need_a_quiet_run(config: ProbeConfig)
    ensures
        config.is_live() ==> config.continuous && !config.scroll && !config.verbose,
        !config.is_live() ==> !config.continuous || config.scroll || config.verbose,
{
}

/// The first line tells the target, its address, the count, the hops, the times
/// and the ways in which the program runs, each as the configuration has it.
pub proof fn law_first_line_tells_the_configuration(
    config: ProbeConfig,
    timeout: Seq<char>,
    interval: Seq<char>,
)
    ensures
        ({
            let target = "Starting rttmeter target="@ + config.original_target@ + " resolved="@
                + config.resolved_target.dotted() + " count="@ + crate::text::decimal(
                config.count as nat,
            );
            let hops = if config.ttl is Some {
                " ttl="@ + crate::text::decimal(config.ttl->0 as nat)
            } else if config.trace {
                " max_ttl="@ + crate::text::decimal(config.max_ttl as nat)
            } else {
                Seq::empty()
            };
            let mode = if config.ttl is Some {
                "single-ttl"@
            } else if config.trace {
                "trace"@
            } else {
                "auto-ttl"@
            };
            let run = if config.continuous {
                "continuous"@
            } else {
                "once"@
            };
            let output = if config.continuous && !config.scroll && !config.verbose {
                "live"@
            } else {
                "scroll"@
            };
            &&& scope_text(config) == hops
            &&& mode_text(config.mode()) == mode
            &&& startup_text(config, timeout, interval) == target + hops + " timeout="@ + timeout
                + "s interval="@ + interval + "s mode="@ + mode + " run="@ + run + " output="@
                + output
        }),
{
}

/// What the value of an option reads as decides alone whether it is taken: a
/// number other than zero, or a positive interval. It is then the setting, and
/// the other settings stay as they are. Else nothing is set, and the message
/// tells what is wrong with the value.
pub proof fn law_reading_decides(
    settings: Settings,
    value: Seq<char>,
    count: u16,
    hops: u8,
    nanos: u128,
    error: Seq<char>,
)
    ensures
        count > 0 ==> counted(settings, value, Ok(count)) == Ok::<Settings, Refusal>(
            Settings {
                count,
                max_ttl: settings.max_ttl,
                explicit_max_ttl: settings.explicit_max_ttl,
                ttl: settings.ttl,
                trace: settings.trace,
                verbose: settings.verbose,
                continuous: settings.continuous,
                scroll: settings.scroll,
                interval_nanos: settings.interval_nanos,
            },
        ),
        hops > 0 ==> limited(settings, value, Ok(hops)) == Ok::<Settings, Refusal>(
            Settings {
                count: settings.count,
                max_ttl: hops,
                explicit_max_ttl: true,
                ttl: settings.ttl,
                trace: settings.trace,
                verbose: settings.verbose,
                continuous: settings.continuous,
                scroll: settings.scroll,
                interval_nanos: settings.interval_nanos,
            },
        ),
        hops > 0 ==> pinned(settings, value, Ok(hops)) == Ok::<Settings, Refusal>(
            Settings {
                count: settings.count,
                max_ttl: settings.max_ttl,
                explicit_max_ttl: settings.explicit_max_ttl,
                ttl: Some(hops),
                trace: settings.trace,
                verbose: settings.verbose,
                continuous: settings.continuous,
                scroll: settings.scroll,
                interval_nanos: settings.interval_nanos,
            },
        ),
        paced(settings, value, IntervalReading::Positive(nanos)) == Ok::<Settings, Refusal>(
            Settings {
                count: settings.count,
                max_ttl: settings.max_ttl,
                explicit_max_ttl: settings.explicit_max_ttl,
                ttl: settings.ttl,
                trace: settings.trace,
                verbose: settings.verbose,
                continuous: settings.continuous,
                scroll: settings.scroll,
                interval_nanos: nanos,
            },
        ),
        counted(settings, value, Ok(0)) == Err::<Settings, Refusal>(
            Refusal::Message("Probe count must be greater than zero"@),
        ),
        limited(settings, value, Ok(0)) == Err::<Settings, Refusal>(
            Refusal::Message("Max TTL must be greater than zero"@),
        ),
        pinned(settings, value, Ok(0)) == Err::<Settings, Refusal>(
            Refusal::Message("TTL must be greater than zero"@),
        ),
        paced(settings, value, IntervalReading::NotPositive) == Err::<Settings, Refusal>(
            Refusal::Message("Interval must be greater than zero"@),
        ),
        paced(settings, value, IntervalReading::OutOfRange) == Err::<Settings, Refusal>(
            Refusal::IntervalOutOfRange,
        ),
        counted(settings, value, Err(error)) == Err::<Settings, Refusal>(
            Refusal::Message("Invalid "@ + "probe count"@ + " '"@ + value + "': "@ + error),
        ),
        limited(settings, value, Err(error)) == Err::<Settings, Refusal>(
            Refusal::Message("Invalid "@ + "max TTL"@ + " '"@ + value + "': "@ + error),
        ),
        pinned(settings, value, Err(error)) == Err::<Settings, Refusal>(
            Refusal::Message("Invalid "@ + "TTL"@ + " '"@ + value + "': "@ + error),
        ),
{
}

/// An interval that is no number is refused with the reason.
pub proof fn law_malformed_interval_is_refused(
    settings: Settings,
    value: Seq<char>,
    reason: String,
)
    ensures
        paced(settings, value, IntervalReading::Malformed(reason)) == Err::<Settings, Refusal>(
            Refusal::Message("Invalid "@ + "interval"@ + " '"@ + value + "': "@ + reason@),
        ),
{
}

/// A reading is seen as what it is, with the text of its error.
pub proof fn law_reading_is_seen_as_it_is<T>(value: T, error: String)
    ensures
        reading(Ok::<T, String>(value)) == Ok::<T, Seq<char>>(value),
        reading(Err::<T, String>(error)) == Err::<T, Seq<char>>(error@),
{
}

/// Each option is named by its own argument, and no other argument names one.
pub proof fn law_options_are_named(arg: Seq<char>)
    ensures
        option_named(arg) is Some <==> is_flag(arg) || is_valued(arg),
        option_named("--count"@) == Some(OptionName::Count),
        option_named("--max-ttl"@) == Some(OptionName::MaxTtl),
        option_named("--ttl"@) == Some(OptionName::Ttl),
        option_named("--interval"@) == Some(OptionName::Interval),
        option_named("--trace"@) == Some(OptionName::Trace),
        option_named("--once"@) == Some(OptionName::Once),
        option_named("--verbose"@) == Some(OptionName::Verbose),
        option_named("--continuous"@) == Some(OptionName::Continuous),
        option_named("--live"@) == Some(OptionName::Live),
        option_named("--scroll"@) == Some(OptionName::Scroll),
{
    lemma_option_names();
}

/// A command line that names a target and is not refused asks for a trace of that
/// target, as it is named, at the address that it was resolved to.
pub proof fn law_trace_is_of_the_named_target(
    args: &[String],
    resolved: Option<Ipv4Address>,
    intervals: &[IntervalReading],
    command: Result<Command, CommandError>,
)
    requires
        call_ensures(parse_command, (args, resolved, intervals), command),
        intervals@.len() == args@.len(),
        names_target(crate::text::texts(args@)),
    ensures
        command matches Ok(asked) ==> (asked matches Command::Trace(config) && {
            &&& config.original_target@ == args@[1]@
            &&& Some(config.resolved_target) == resolved
            &&& settings_asked(crate::text::texts(args@), intervals@) matches Ok(settings)
                && config.count == settings.count && config.max_ttl == settings.max_ttl
                && config.ttl == settings.ttl && config.trace == settings.trace && config.verbose
                == settings.verbose && config.continuous == settings.continuous && config.scroll
                == settings.scroll && config.interval_nanos == settings.interval_nanos
        }),
        command matches Err(error) ==> settings_asked(crate::text::texts(args@), intervals@)
            == Err::<Settings, Refusal>(error@),
{
}

/// Events are reported where the run goes on and the table is not redrawn in
/// place: never in a run that ends, and never in a live one.
pub proof fn law_events_are_for_scrolling_runs(config: &ProbeConfig, emit: bool, live: bool)
    requires
        call_ensures(should_emit_events, (config,), emit),
        call_ensures(should_use_live_refresh, (config,), live),
    ensures
        emit <==> config.continuous && (config.scroll || config.verbose),
        !(emit && live),
        config.continuous <==> emit || live,
{
}

/// A refused command line is answered with the usage, and with a message in a
/// line of its own before it, if there is one.
pub proof fn law_refusal_shows_the_usage(error: &CommandError, args: &[String], text: String)
    requires
        call_ensures(refusal_text, (error, args), text),
        *error !is IntervalOutOfRange,
    ensures
        ({
            let usage = usage_text(
                if args@.len() > 0 {
                    args@[0]@
                } else {
                    "rttmeter"@
                },
            );
            &&& *error is Usage ==> text@ == usage
            &&& *error matches CommandError::Message(message) ==> text@ == message@ + "\n"@ + usage
        }),
{
}

} // verus!
