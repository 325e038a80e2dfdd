//! The results of running external commands: captured output, exit status,
//! and how a failure reads.

use vstd::prelude::*;
use crate::fmt::{dec_int, fmt_i64};
use crate::text::{chars_of, debug_quote, debug_repr, push_all, push_str, string_of};

verus! {

/// The text `String::from_utf8_lossy` makes of a byte string: the decoded
/// characters, with U+FFFD for invalid sequences.
pub uninterp spec fn utf8_lossy(b: Seq<u8>) -> Seq<char>;

/// `String::from_utf8_lossy`: valid UTF-8 decodes exactly; invalid
/// sequences become U+FFFD, which is left unsaid here.
#[verifier::external_body]
fn lossy(b: &[u8]) -> (s: String)
    ensures
        s@ == utf8_lossy(b@),
        vstd::utf8::valid_utf8(b@) ==> s@ == vstd::utf8::decode_utf8(b@),
{
    String::from_utf8_lossy(b).into_owned()
}

/// The captured result of a completed command.
#[derive(Clone, Debug, Default, PartialEq, Eq)]
pub struct Output {
    pub stdout: Vec<u8>,
    pub stderr: Vec<u8>,
    /// Exit status, or -1 when the process was killed by a signal.
    pub exit_code: i32,
    /// The terminating signal, when the process died by one.
    pub signal: Option<i32>,
}

impl Output {
    /// `stdout` as text, invalid UTF-8 replaced.
    pub fn stdout_lossy(&self) -> (s: String)
        ensures
            s@ == utf8_lossy(self.stdout@),
            vstd::utf8::valid_utf8(self.stdout@) ==> s@ == vstd::utf8::decode_utf8(self.stdout@),
    {
        lossy(self.stdout.as_slice())
    }

    /// `stderr` as text, invalid UTF-8 replaced.
    pub fn stderr_lossy(&self) -> (s: String)
        ensures
            s@ == utf8_lossy(self.stderr@),
            vstd::utf8::valid_utf8(self.stderr@) ==> s@ == vstd::utf8::decode_utf8(self.stderr@),
    {
        lossy(self.stderr.as_slice())
    }
}

/// Failure to find or run a command.
#[derive(Debug)]
pub enum RunError {
    /// The executable was not found.
    NotFound(String),
    /// The command could not be started; the text of the error.
    Spawn(String),
    /// The process ran and exited unsuccessfully.
    Failed(Output),
    /// The timeout elapsed and the process was killed.
    Timeout(Elapsed, Output),
}

/// A span of time: whole seconds and the nanoseconds past them (always
/// under one second).
#[derive(Clone, Copy, Debug)]
pub struct Elapsed {
    secs: u64,
    nanos: u32,
}

impl View for Elapsed {
    type V = (u64, u32);

    closed spec fn view(&self) -> (u64, u32) {
        (self.secs, self.nanos)
    }
}

impl Elapsed {
    #[verifier::type_invariant]
    spec fn nanos_in_second(self) -> bool {
        self.nanos < 1_000_000_000
    }

    /// The span of `secs` seconds and `nanos` nanoseconds; `None` when
    /// `nanos` is a second or more.
    pub fn from_parts(secs: u64, nanos: u32) -> (r: Option<Elapsed>)
        ensures
            r is Some <==> nanos < 1_000_000_000,
            r matches Some(e) ==> e@ == (secs, nanos),
    {
        if nanos < 1_000_000_000 {
            Some(Elapsed { secs, nanos })
        } else {
            None
        }
    }

    /// The whole seconds.
    pub fn secs(&self) -> (r: u64)
        ensures
            r == self@.0,
    {
        self.secs
    }

    /// The nanoseconds past the whole seconds.
    pub fn subsec_nanos(&self) -> (r: u32)
        ensures
            r == self@.1,
            r < 1_000_000_000,
    {
        proof {
            use_type_invariant(self);
        }
        self.nanos
    }
}

/// The text `format!("{:?}", Duration::new(secs, nanos))` makes of a span
/// (such as `30s`, `1.5s` or `200ms`).
pub uninterp spec fn duration_debug_text(secs: u64, nanos: u32) -> Seq<char>;

/// `Debug` of `Duration::new(secs, nanos)`: the text depends on the span
/// alone, and is named, not spelled out. With `nanos` under a second the
/// constructor cannot overflow.
#[verifier::external_body]
fn duration_debug(secs: u64, nanos: u32) -> (s: String)
    requires
        nanos < 1_000_000_000,
    ensures
        s@ == duration_debug_text(secs, nanos),
{
    format!("{:?}", std::time::Duration::new(secs, nanos))
}

impl RunError {
    /// How the failure reads: the missing program quoted, the start
    /// failure, the exit status or signal, or the timeout.
    pub fn message(&self) -> (s: String)
        ensures
            match *self {
                RunError::NotFound(p) => s@ == "exec: "@ + debug_repr(p@) + ": executable file not found in $PATH"@,
                RunError::Spawn(t) => s@ == "failed to start command: "@ + t@,
                RunError::Failed(out) => s@ == exit_text(out),
                RunError::Timeout(d, _) => s@ == "command timed out after "@ + duration_debug_text(d@.0, d@.1),
            },
    {
        match self {
            RunError::NotFound(p) => {
                let mut t = chars_of("exec: ");
                let q = debug_quote(p.as_str());
                let qc = chars_of(q.as_str());
                push_all(&mut t, qc.as_slice());
                push_str(&mut t, ": executable file not found in $PATH");
                string_of(t.as_slice())
            },
            RunError::Spawn(e) => {
                let mut t = chars_of("failed to start command: ");
                let ec = chars_of(e.as_str());
                push_all(&mut t, ec.as_slice());
                string_of(t.as_slice())
            },
            RunError::Failed(out) => describe_exit(out),
            RunError::Timeout(d, _) => {
                let mut t = chars_of("command timed out after ");
                let dt = duration_debug(d.secs(), d.subsec_nanos());
                let dc = chars_of(dt.as_str());
                push_all(&mut t, dc.as_slice());
                let s = string_of(t.as_slice());
                assert(s@ == "command timed out after "@ + dc@);
                s
            },
        }
    }

    /// The output captured before the failure, when the process ran at all.
    pub fn output(&self) -> (o: Option<&Output>)
        ensures
            match *self {
                RunError::Failed(out) => o == Some(&out),
                RunError::Timeout(_, out) => o == Some(&out),
                _ => o is None,
            },
    {
        match self {
            RunError::Failed(output) => Some(output),
            RunError::Timeout(_, output) => Some(output),
            RunError::NotFound(_) => None,
            RunError::Spawn(_) => None,
        }
    }
}

/// Whether `nix` knows the signal number on this platform:
/// `Signal::try_from`, whose match lists the platform's signals and answers
/// `EINVAL` for any other number. On Linux (other than MIPS and SPARC) the
/// list is the signals 1 to 31, so a number in that range comes back as
/// itself and any other is unknown.
#[verifier::external_body]
fn known_signal(s: i32) -> (r: Option<i32>)
    ensures
        r == (if 1 <= s <= 31 { Some(s) } else { None::<i32> }),
{
    match nix::sys::signal::Signal::try_from(s) {
        Ok(sig) => Some(sig as i32),
        Err(_) => None,
    }
}

/// The descriptive name of a Linux signal number.
pub open spec fn signal_text(s: i32) -> Seq<char> {
    if s == 1 { "hangup"@ }
    else if s == 2 { "interrupt"@ }
    else if s == 3 { "quit"@ }
    else if s == 4 { "illegal instruction"@ }
    else if s == 5 { "trace/breakpoint trap"@ }
    else if s == 6 { "abort"@ }
    else if s == 7 { "bus error"@ }
    else if s == 8 { "floating point exception"@ }
    else if s == 9 { "killed"@ }
    else if s == 10 { "user defined signal 1"@ }
    else if s == 11 { "segmentation fault"@ }
    else if s == 12 { "user defined signal 2"@ }
    else if s == 13 { "broken pipe"@ }
    else if s == 14 { "alarm clock"@ }
    else if s == 15 { "terminated"@ }
    else if s == 16 { "stack fault"@ }
    else if s == 17 { "child exited"@ }
    else if s == 18 { "continued"@ }
    else if s == 19 { "stopped"@ }
    else if s == 20 { "stopped (terminal)"@ }
    else if s == 21 { "stopped (tty input)"@ }
    else if s == 22 { "stopped (tty output)"@ }
    else if s == 23 { "urgent I/O condition"@ }
    else if s == 24 { "CPU time limit exceeded"@ }
    else if s == 25 { "file size limit exceeded"@ }
    else if s == 26 { "virtual timer expired"@ }
    else if s == 27 { "profiling timer expired"@ }
    else if s == 28 { "window size changed"@ }
    else if s == 29 { "I/O possible"@ }
    else if s == 30 { "power fail/restart"@ }
    else if s == 31 { "bad system call"@ }
    else { "unknown signal"@ }
}

/// The name of a signal given what `nix` made of its number.
pub fn signal_name(known: Option<i32>) -> (r: &'static str)
    ensures
        r@ == match known {
            Some(s) => signal_text(s),
            None => "unknown signal"@,
        },
{
    let s = match known {
        Some(s) => s,
        None => return "unknown signal",
    };
    if s == 1 { "hangup" }
    else if s == 2 { "interrupt" }
    else if s == 3 { "quit" }
    else if s == 4 { "illegal instruction" }
    else if s == 5 { "trace/breakpoint trap" }
    else if s == 6 { "abort" }
    else if s == 7 { "bus error" }
    else if s == 8 { "floating point exception" }
    else if s == 9 { "killed" }
    else if s == 10 { "user defined signal 1" }
    else if s == 11 { "segmentation fault" }
    else if s == 12 { "user defined signal 2" }
    else if s == 13 { "broken pipe" }
    else if s == 14 { "alarm clock" }
    else if s == 15 { "terminated" }
    else if s == 16 { "stack fault" }
    else if s == 17 { "child exited" }
    else if s == 18 { "continued" }
    else if s == 19 { "stopped" }
    else if s == 20 { "stopped (terminal)" }
    else if s == 21 { "stopped (tty input)" }
    else if s == 22 { "stopped (tty output)" }
    else if s == 23 { "urgent I/O condition" }
    else if s == 24 { "CPU time limit exceeded" }
    else if s == 25 { "file size limit exceeded" }
    else if s == 26 { "virtual timer expired" }
    else if s == 27 { "profiling timer expired" }
    else if s == 28 { "window size changed" }
    else if s == 29 { "I/O possible" }
    else if s == 30 { "power fail/restart" }
    else if s == 31 { "bad system call" }
    else { "unknown signal" }
}

/// The name of the signal that ended a process (`unknown signal` when there
/// was none or `nix` does not know it).
pub fn exit_signal_name(signal: Option<i32>) -> (r: &'static str)
    ensures
        r@ == exit_signal_text(signal),
{
    let known = match signal {
        Some(s) => known_signal(s),
        None => None,
    };
    signal_name(known)
}

/// The name given to the signal that ended a process, if any.
pub open spec fn exit_signal_text(signal: Option<i32>) -> Seq<char> {
    match signal {
        Some(s) => signal_text(s),
        None => "unknown signal"@,
    }
}

/// How a failed exit reads: `signal: <name>` after a signal, else
/// `exit status <code>`.
pub open spec fn exit_text(output: Output) -> Seq<char> {
    if output.exit_code < 0 {
        "signal: "@ + exit_signal_text(output.signal)
    } else {
        "exit status "@ + dec_int(output.exit_code as int)
    }
}

/// How a failed exit reads: `signal: <name>` after a signal, else
/// `exit status <code>`.
pub fn describe_exit(output: &Output) -> (s: String)
    ensures
        s@ == exit_text(*output),
{
    let mut t: Vec<char> = Vec::new();
    if output.exit_code < 0 {
        push_str(&mut t, "signal: ");
        let n = exit_signal_name(output.signal);
        let nc = chars_of(n);
        push_all(&mut t, nc.as_slice());
        assert(t@ == "signal: "@ + n@);
    } else {
        push_str(&mut t, "exit status ");
        let d = fmt_i64(output.exit_code as i64);
        push_all(&mut t, d.as_slice());
    }
    string_of(t.as_slice())
}

/// The runner that starts real processes.
#[derive(Clone, Copy, Debug, Default)]
pub struct ProcessRunner;

impl ProcessRunner {
    pub fn new() -> (r: ProcessRunner)
        ensures
            r == ProcessRunner,
    {
        ProcessRunner
    }
}

} // verus!
