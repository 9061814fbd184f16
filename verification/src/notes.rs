//! The lines that accompany the probing, and the errors that end it.
use vstd::prelude::*;

use crate::address::Ipv4Address;
use crate::text::append_decimal;

verus! {

/// `before`, a number, and `after`.
fn around_number(before: &str, n: u64, after: &str) -> (line: String)
    ensures
        line@ == before@ + crate::text::decimal(n as nat) + after@,
{
    let mut line: String = before.to_owned();
    append_decimal(&mut line, n);
    line.append(after);
    line
}

/// `before`, a time to live, ` seq=`, a sequence number, and `after`.
fn about_probe(before: &str, ttl: u8, sequence_number: u16, after: &str) -> (line: String)
    ensures
        line@ == before@ + crate::text::decimal(ttl as nat) + " seq="@ + crate::text::decimal(
            sequence_number as nat,
        ) + after@,
{
    let mut line: String = before.to_owned();
    append_decimal(&mut line, ttl as u64);
    line.append(" seq=");
    append_decimal(&mut line, sequence_number as u64);
    line.append(after);
    line
}

/// The line that tells the version.
pub fn version_line(version: &str) -> (line: String)
    ensures
        line@ == "rttmeter "@ + version@,
{
    let mut line: String = "rttmeter ".to_owned();
    line.append(version);
    line
}

/// The line before the search for the target.
pub fn discovery_start_line(max_ttl: u8) -> (line: String)
    ensures
        line@ == "Discovering target TTL up to "@ + crate::text::decimal(max_ttl as nat) + "..."@,
{
    around_number("Discovering target TTL up to ", max_ttl as u64, "...")
}

/// The line after the search for the target, which was found.
pub fn discovery_success_line(ttl: u8) -> (line: String)
    ensures
        line@ == "Target reached at ttl="@ + crate::text::decimal(ttl as nat)
            + ". Switching to target monitoring."@,
{
    around_number("Target reached at ttl=", ttl as u64, ". Switching to target monitoring.")
}

/// The error that the target was not found.
pub fn discovery_failure(max_ttl: u8) -> (error: String)
    ensures
        error@ == "Could not reach target within max_ttl="@ + crate::text::decimal(max_ttl as nat)
            + ". Try --trace --max-ttl <n>."@,
{
    around_number(
        "Could not reach target within max_ttl=",
        max_ttl as u64,
        ". Try --trace --max-ttl <n>.",
    )
}

/// The note on a probe that is about to be sent, where notes are wanted.
pub fn probe_note(verbose: bool, ttl: u8, sequence_number: u16) -> (note: Option<String>)
    ensures
        match note {
            Some(line) => verbose && line@ == "Probing ttl="@ + crate::text::decimal(ttl as nat)
                + " seq="@ + crate::text::decimal(sequence_number as nat) + "..."@,
            None => !verbose,
        },
{
    if verbose {
        Some(about_probe("Probing ttl=", ttl, sequence_number, "..."))
    } else {
        None
    }
}

/// The note on a probe that was not answered, where notes are wanted.
pub fn timeout_note(verbose: bool, ttl: u8, sequence_number: u16) -> (note: Option<String>)
    ensures
        match note {
            Some(line) => verbose && line@ == "Timeout ttl="@ + crate::text::decimal(ttl as nat)
                + " seq="@ + crate::text::decimal(sequence_number as nat),
            None => !verbose,
        },
{
    if verbose {
        let line: String = about_probe("Timeout ttl=", ttl, sequence_number, "");
        proof {
            reveal_strlit("");
            assert(line@ =~= "Timeout ttl="@ + crate::text::decimal(ttl as nat) + " seq="@
                + crate::text::decimal(sequence_number as nat));
        }
        Some(line)
    } else {
        None
    }
}

/// The error that there is no socket.
pub fn socket_failure(reason: &str) -> (error: String)
    ensures
        error@ == "Failed to create ICMP raw socket: "@ + reason@,
{
    let mut error: String = "Failed to create ICMP raw socket: ".to_owned();
    error.append(reason);
    error
}

/// The error that a probe could not be sent.
pub fn send_failure(target: Ipv4Address, reason: &str) -> (error: String)
    ensures
        error@ == "Failed to send ICMP Echo Request to "@ + target.dotted() + ": "@ + reason@,
{
    let mut error: String = "Failed to send ICMP Echo Request to ".to_owned();
    error.append(target.to_text().as_str());
    error.append(": ");
    error.append(reason);
    error
}

/// The error that the time to wait for a packet could not be set.
pub fn receive_timeout_failure(reason: &str) -> (error: String)
    ensures
        error@ == "Failed to set receive timeout: "@ + reason@,
{
    let mut error: String = "Failed to set receive timeout: ".to_owned();
    error.append(reason);
    error
}

/// The error that the time to live could not be set.
pub fn ttl_failure(ttl: u8, reason: &str) -> (error: String)
    ensures
        error@ == "Failed to set TTL to "@ + crate::text::decimal(ttl as nat) + ": "@ + reason@,
{
    let mut error: String = around_number("Failed to set TTL to ", ttl as u64, ": ");
    error.append(reason);
    error
}

/// The error with which a run ends, if there is one. That the socket could not
/// be closed goes before what happened in the run.
pub fn run_failure(socket_fd: u32, close_error: Option<&str>, trace_error: Option<&str>) -> (error:
    Option<String>)
    ensures
        match close_error {
            Some(reason) => error matches Some(text) && text@ == "Failed to close socket fd "@
                + crate::text::decimal(socket_fd as nat) + ": "@ + reason@,
            None => match trace_error {
                Some(reason) => error matches Some(text) && text@ == reason@,
                None => error is None,
            },
        },
{
    match close_error {
        Some(reason) => {
            let mut text: String = around_number(
                "Failed to close socket fd ",
                socket_fd as u64,
                ": ",
            );
            text.append(reason);
            Some(text)
        },
        None => match trace_error {
            Some(reason) => Some(reason.to_owned()),
            None => None,
        },
    }
}

/// A run ends with an error exactly if it failed or its socket could not be
/// closed. That the socket could not be closed is told first, with the reason.
pub proof fn law_run_fails_for_a_reason(
    socket_fd: u32,
    close_error: Option<&str>,
    trace_error: Option<&str>,
    error: Option<String>,
)
    requires
        call_ensures(run_failure, (socket_fd, close_error, trace_error), error),
    ensures
        error is None <==> close_error is None && trace_error is None,
        close_error matches Some(reason) ==> error->0@ == "Failed to close socket fd "@
            + crate::text::decimal(socket_fd as nat) + ": "@ + reason@,
        close_error is None ==> (trace_error matches Some(reason) ==> error->0@ == reason@),
{
}

/// Probes and timeouts are noted only where notes are wanted, each with its time
/// to live and its sequence number.
pub proof fn law_notes_are_for_verbose_runs(
    verbose: bool,
    ttl: u8,
    sequence_number: u16,
    sent: Option<String>,
    late: Option<String>,
)
    requires
        call_ensures(probe_note, (verbose, ttl, sequence_number), sent),
        call_ensures(timeout_note, (verbose, ttl, sequence_number), late),
    ensures
        sent is Some <==> verbose,
        late is Some <==> verbose,
        verbose ==> sent->0@ == "Probing ttl="@ + crate::text::decimal(ttl as nat) + " seq="@
            + crate::text::decimal(sequence_number as nat) + "..."@,
        verbose ==> late->0@ == "Timeout ttl="@ + crate::text::decimal(ttl as nat) + " seq="@
            + crate::text::decimal(sequence_number as nat),
{
}

} // verus!
