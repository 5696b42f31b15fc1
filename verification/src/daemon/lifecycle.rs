//! Starting, stopping and reporting the daemon by its PID file.

use vstd::prelude::*;

use crate::text::{chars_of, decimal, decimal_string, trim, trim_chars, parse_u32, parse_unsigned, unsigned_digits, all_digits};

verus! {

/// Why the PID file's text is no process id (the reasons of
/// `u32::from_str`).
#[derive(Debug, Clone, Copy, PartialEq, Eq, Structural)]
pub enum PidParseError {
    Empty,
    InvalidDigit,
    TooLarge,
}

impl PidParseError {
    pub fn message(&self) -> (m: &'static str)
        ensures
            m@ == (match *self {
                PidParseError::Empty => "cannot parse integer from empty string"@,
                PidParseError::InvalidDigit => "invalid digit found in string"@,
                PidParseError::TooLarge => "number too large to fit in target type"@,
            }),
    {
        match self {
            PidParseError::Empty => "cannot parse integer from empty string",
            PidParseError::InvalidDigit => "invalid digit found in string",
            PidParseError::TooLarge => "number too large to fit in target type",
        }
    }
}

/// What the PID file's text gives: the trimmed text read as a `u32`.
pub open spec fn pid_of(content: Seq<char>) -> Result<u32, PidParseError> {
    let t = trim(content);
    if t.len() == 0 {
        Err(PidParseError::Empty)
    } else if unsigned_digits(t).len() == 0 || !all_digits(unsigned_digits(t)) {
        Err(PidParseError::InvalidDigit)
    } else {
        match parse_unsigned(t, u32::MAX as nat) {
            Some(p) => Ok(p as u32),
            None => Err(PidParseError::TooLarge),
        }
    }
}

/// Reads the PID file's text (see `pid_of`).
pub fn parse_pid(content: &str) -> (r: Result<u32, PidParseError>)
    ensures
        r == pid_of(content@),
{
    let cs = chars_of(content);
    let t = trim_chars(cs.as_slice());
    if t.len() == 0 {
        return Err(PidParseError::Empty);
    }
    let start: usize = if t[0] == '+' { 1 } else { 0 };
    assert(unsigned_digits(t@) =~= t@.skip(start as int));
    if start >= t.len() {
        return Err(PidParseError::InvalidDigit);
    }
    let mut i: usize = start;
    while i < t.len()
        invariant
            start <= i <= t@.len(),
            start < t@.len(),
            t@ == trim(content@),
            unsigned_digits(t@) =~= t@.skip(start as int),
            forall|k: int| start <= k < i ==> crate::text::is_ascii_digit(#[trigger] t@[k]),
        decreases t@.len() - i,
    {
        let c = t[i];
        if !('0' <= c && c <= '9') {
            assert(unsigned_digits(t@)[i - start] == c);
            return Err(PidParseError::InvalidDigit);
        }
        i = i + 1;
    }
    assert(all_digits(unsigned_digits(t@))) by {
        assert forall|k: int| 0 <= k < unsigned_digits(t@).len() implies crate::text::is_ascii_digit(
            #[trigger] unsigned_digits(t@)[k],
        ) by {
            assert(unsigned_digits(t@)[k] == t@[k + start]);
        }
    }
    match parse_u32(t.as_slice()) {
        Some(p) => Ok(p),
        None => Err(PidParseError::TooLarge),
    }
}

/// What `daemon status` reports.
#[derive(Debug, Clone, Copy, PartialEq, Eq, Structural)]
pub enum DaemonReport {
    /// There is no PID file.
    NotRunning,
    Running(u32),
    /// The PID file names a process that is gone; the file is removed.
    Stale(u32),
}

impl DaemonReport {
    pub fn message(&self) -> (m: String)
        ensures
            m@ == (match *self {
                DaemonReport::NotRunning => "daemon is not running"@,
                DaemonReport::Running(p) => "daemon is running (pid "@ + decimal(p as nat) + ")"@,
                DaemonReport::Stale(p) => "daemon is not running (stale PID file, pid "@ + decimal(p as nat) + ")"@,
            }),
    {
        match self {
            DaemonReport::NotRunning => "daemon is not running".to_owned(),
            DaemonReport::Running(p) => {
                let mut m = "daemon is running (pid ".to_owned();
                let d = decimal_string(*p as u64);
                m.append(d.as_str());
                m.append(")");
                m
            }
            DaemonReport::Stale(p) => {
                let mut m = "daemon is not running (stale PID file, pid ".to_owned();
                let d = decimal_string(*p as u64);
                m.append(d.as_str());
                m.append(")");
                m
            }
        }
    }
}

/// The daemon's status from its PID file's process id (`None` where there
/// is no file) and whether that process is alive.
pub fn daemon_status(pid: Option<u32>, alive: bool) -> (r: DaemonReport)
    ensures
        r == (match pid {
            None => DaemonReport::NotRunning,
            Some(p) => if alive {
                DaemonReport::Running(p)
            } else {
                DaemonReport::Stale(p)
            },
        }),
{
    match pid {
        None => DaemonReport::NotRunning,
        Some(p) => if alive {
            DaemonReport::Running(p)
        } else {
            DaemonReport::Stale(p)
        },
    }
}

/// Why the daemon could not be started or stopped.
#[derive(Debug)]
pub enum LifecycleError {
    AlreadyRunning(u32),
    NoPidFile,
    Stale(u32),
    /// The shutdown request failed; holds what was reported.
    ShutdownRequest(String),
    DidNotExit(u32),
}

impl LifecycleError {
    pub fn message(&self) -> (m: String)
        ensures
            match self {
                LifecycleError::AlreadyRunning(p) => m@ == "daemon already running (pid "@ + decimal(*p as nat) + ")"@,
                LifecycleError::NoPidFile => m@ == "daemon is not running (no PID file)"@,
                LifecycleError::Stale(p) => m@ == "daemon is not running (stale PID file, pid "@ + decimal(*p as nat)
                    + ")"@,
                LifecycleError::ShutdownRequest(e) => m@ == "failed to request daemon shutdown: "@ + e@,
                LifecycleError::DidNotExit(p) => m@ == "daemon (pid "@ + decimal(*p as nat)
                    + ") did not exit within 3 seconds"@,
            },
    {
        match self {
            LifecycleError::AlreadyRunning(p) => {
                let mut m = "daemon already running (pid ".to_owned();
                let d = decimal_string(*p as u64);
                m.append(d.as_str());
                m.append(")");
                m
            }
            LifecycleError::NoPidFile => "daemon is not running (no PID file)".to_owned(),
            LifecycleError::Stale(p) => {
                let mut m = "daemon is not running (stale PID file, pid ".to_owned();
                let d = decimal_string(*p as u64);
                m.append(d.as_str());
                m.append(")");
                m
            }
            LifecycleError::ShutdownRequest(e) => {
                let mut m = "failed to request daemon shutdown: ".to_owned();
                m.append(e.as_str());
                m
            }
            LifecycleError::DidNotExit(p) => {
                let mut m = "daemon (pid ".to_owned();
                let d = decimal_string(*p as u64);
                m.append(d.as_str());
                m.append(") did not exit within 3 seconds");
                m
            }
        }
    }
}

/// Whether the daemon may start, given the PID file's process id and
/// whether it is alive. `Ok(true)` says a stale PID file is to be removed
/// first.
pub fn check_start(pid: Option<u32>, alive: bool) -> (r: Result<bool, LifecycleError>)
    ensures
        match pid {
            None => r == Ok::<bool, LifecycleError>(false),
            Some(p) => if alive {
                r matches Err(LifecycleError::AlreadyRunning(q)) && q == p
            } else {
                r == Ok::<bool, LifecycleError>(true)
            },
        },
{
    match pid {
        None => Ok(false),
        Some(p) => if alive {
            Err(LifecycleError::AlreadyRunning(p))
        } else {
            Ok(true)
        },
    }
}

/// Whether the daemon can be asked to stop: it needs a PID file naming a
/// live process (a stale file is removed).
pub fn check_stop(pid: Option<u32>, alive: bool) -> (r: Result<u32, LifecycleError>)
    ensures
        match pid {
            None => r matches Err(LifecycleError::NoPidFile),
            Some(p) => if alive {
                r matches Ok(q) && q == p
            } else {
                r matches Err(LifecycleError::Stale(q)) && q == p
            },
        },
{
    match pid {
        None => Err(LifecycleError::NoPidFile),
        Some(p) => if alive {
            Ok(p)
        } else {
            Err(LifecycleError::Stale(p))
        },
    }
}

/// How many times `daemon stop` looks, 100 ms apart, for the daemon to
/// exit after the shutdown request.
pub const STOP_POLLS: u32 = 30;

/// What `daemon stop` does after looking `polls` times (counting this
/// one) and finding the daemon `alive` or not: done once it is gone, wait
/// again while looks remain, else give up.
#[derive(Debug, Clone, Copy, PartialEq, Eq, Structural)]
pub enum StopStep {
    Stopped,
    Wait,
    GaveUp,
}

pub fn stop_step(polls: u32, alive: bool) -> (r: StopStep)
    ensures
        !alive ==> r == StopStep::Stopped,
        alive && polls < STOP_POLLS ==> r == StopStep::Wait,
        alive && polls >= STOP_POLLS ==> r == StopStep::GaveUp,
{
    if !alive {
        StopStep::Stopped
    } else if polls < STOP_POLLS {
        StopStep::Wait
    } else {
        StopStep::GaveUp
    }
}

/// `daemon stopped (pid {pid})`.
pub fn stopped_message(pid: u32) -> (m: String)
    ensures
        m@ == "daemon stopped (pid "@ + decimal(pid as nat) + ")"@,
{
    let mut m = "daemon stopped (pid ".to_owned();
    let d = decimal_string(pid as u64);
    m.append(d.as_str());
    m.append(")");
    m
}

} // verus!
