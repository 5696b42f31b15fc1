//! The kernel supervisor's state: whether a kernel process is held, which
//! version it runs, and whether it should be running. The process itself
//! is an opaque handle `C`; whoever holds the state spawns, polls and
//! kills it.

use vstd::prelude::*;

use crate::paths::{join, kernel_binary_name, kernel_binary_path};
use crate::text::decimal_string;

verus! {

/// What the supervisor reports.
#[derive(Debug, PartialEq, Eq)]
pub struct KernelManagerStatus {
    pub running: bool,
    pub pid: Option<u32>,
    pub version: Option<String>,
}

/// Why the kernel could not be started or stopped.
#[derive(Debug, PartialEq, Eq)]
pub enum KernelError {
    /// A kernel process is alive, with this PID.
    AlreadyRunning(u32),
    /// No kernel version is active.
    NoActiveVersion,
    /// The active version's executable is missing: holds its path.
    BinaryNotFound(String),
    /// The spawned process has no PID.
    NoChildPid,
    /// No kernel process is held.
    NotRunning,
}

impl KernelError {
    /// The message that describes the error.
    pub fn message(&self) -> (m: String)
        ensures
            m@ == kernel_error_message(*self),
    {
        match self {
            KernelError::AlreadyRunning(pid) => {
                let mut m = "kernel already running (pid ".to_owned();
                let p = decimal_string(*pid as u64);
                m.append(p.as_str());
                m.append(")");
                m
            }
            KernelError::NoActiveVersion => "no active kernel version set (use `bnvr kernel use <version>`)".to_owned(),
            KernelError::BinaryNotFound(path) => {
                let mut m = "binary not found: ".to_owned();
                m.append(path.as_str());
                m
            }
            KernelError::NoChildPid => "failed to get child PID".to_owned(),
            KernelError::NotRunning => "kernel not running".to_owned(),
        }
    }
}

pub open spec fn kernel_error_message(e: KernelError) -> Seq<char> {
    match e {
        KernelError::AlreadyRunning(pid) => "kernel already running (pid "@ + crate::text::decimal(pid as nat) + ")"@,
        KernelError::NoActiveVersion => "no active kernel version set (use `bnvr kernel use <version>`)"@,
        KernelError::BinaryNotFound(path) => "binary not found: "@ + path@,
        KernelError::NoChildPid => "failed to get child PID"@,
        KernelError::NotRunning => "kernel not running"@,
    }
}

/// The supervisor state. `C` is the handle of a kernel process.
#[derive(Debug)]
pub struct KernelState<C> {
    child: Option<C>,
    version: Option<String>,
    restart_on_crash: bool,
    desired_running: bool,
}

/// The view of a supervisor state: whether a process is held, the
/// version, and the two flags.
pub struct KernelStateV {
    pub has_child: bool,
    pub version: Option<Seq<char>>,
    pub restart_on_crash: bool,
    pub desired_running: bool,
}

pub open spec fn opt_text(o: Option<String>) -> Option<Seq<char>> {
    match o {
        Some(s) => Some(s@),
        None => None,
    }
}

impl<C> View for KernelState<C> {
    type V = KernelStateV;

    closed spec fn view(&self) -> KernelStateV {
        KernelStateV {
            has_child: self.child is Some,
            version: opt_text(self.version),
            restart_on_crash: self.restart_on_crash,
            desired_running: self.desired_running,
        }
    }
}

/// Whether the supervisor should start the kernel again: it is meant to
/// run, restarts are on, no process is held, and a version is known.
pub open spec fn wants_restart(s: KernelStateV) -> bool {
    s.desired_running && s.restart_on_crash && !s.has_child && s.version is Some
}

/// The state after a stop request.
pub open spec fn stopped(s: KernelStateV) -> KernelStateV {
    KernelStateV { has_child: false, desired_running: false, ..s }
}

/// The state after the held process was found to have exited.
pub open spec fn exited(s: KernelStateV) -> KernelStateV {
    KernelStateV { has_child: false, ..s }
}

/// The state after a restarted process is offered: it is kept only where
/// the kernel is meant to run and no other process is held.
pub open spec fn offered(s: KernelStateV) -> KernelStateV {
    if s.desired_running && !s.has_child {
        KernelStateV { has_child: true, ..s }
    } else {
        s
    }
}

impl<C> KernelState<C> {
    /// The process held, if any.
    pub closed spec fn held(&self) -> Option<C> {
        self.child
    }

    /// No process, no version, restarts on, not meant to run.
    pub fn new() -> (s: Self)
        ensures
            s@ == (KernelStateV { has_child: false, version: None, restart_on_crash: true, desired_running: false }),
            s.held() is None,
    {
        KernelState { child: None, version: None, restart_on_crash: true, desired_running: false }
    }

    /// The process held, if any.
    pub fn child(&self) -> (r: Option<&C>)
        ensures
            r is Some == self@.has_child,
            r matches Some(c) ==> self.held() == Some(*c),
    {
        match &self.child {
            Some(c) => Some(c),
            None => None,
        }
    }

    /// Clears the way for a start. `child_pid` is the held process's PID
    /// where it is still alive. A live process refuses the start; a held
    /// process without a PID has finished and is let go.
    pub fn check_start(&mut self, child_pid: Option<u32>) -> (r: Result<(), KernelError>)
        ensures
            old(self)@.has_child && child_pid is Some ==> r == Err::<(), KernelError>(KernelError::AlreadyRunning(child_pid->Some_0))
                && final(self)@ == old(self)@,
            !(old(self)@.has_child && child_pid is Some) ==> r is Ok && final(self)@ == exited(old(self)@),
            r is Ok ==> final(self).held() is None,
            r is Err ==> final(self).held() == old(self).held(),
    {
        if self.child.is_some() {
            if let Some(pid) = child_pid {
                return Err(KernelError::AlreadyRunning(pid));
            }
            self.child = None;
        }
        Ok(())
    }

    /// Records a started process running `version`: the kernel is now
    /// meant to run.
    pub fn record_started(&mut self, child: C, version: String)
        ensures
            final(self)@ == (KernelStateV {
                has_child: true,
                version: Some(version@),
                restart_on_crash: old(self)@.restart_on_crash,
                desired_running: true,
            }),
            final(self).held() == Some(child),
    {
        self.child = Some(child);
        self.version = Some(version);
        self.desired_running = true;
    }

    /// A stop request: the kernel is no longer meant to run, and the held
    /// process is handed back to be killed.
    pub fn stop(&mut self) -> (r: Result<C, KernelError>)
        ensures
            final(self)@ == stopped(old(self)@),
            r is Ok <==> old(self)@.has_child,
            r is Err ==> r == Err::<C, KernelError>(KernelError::NotRunning),
            old(self).held() matches Some(c) ==> r == Ok::<C, KernelError>(c),
            final(self).held() is None,
    {
        self.desired_running = false;
        match self.child.take() {
            Some(c) => Ok(c),
            None => Err(KernelError::NotRunning),
        }
    }

    /// The status, given the held process's PID where it has one.
    pub fn status(&self, child_pid: Option<u32>) -> (r: KernelManagerStatus)
        ensures
            r.pid == (if self@.has_child { child_pid } else { None }),
            r.running == r.pid is Some,
            opt_text(r.version) == self@.version,
    {
        let pid = if self.child.is_some() { child_pid } else { None };
        KernelManagerStatus {
            running: pid.is_some(),
            pid,
            version: match &self.version {
                Some(v) => Some(v.clone()),
                None => None,
            },
        }
    }

    /// Hands the held process over to be polled.
    pub fn take_child(&mut self) -> (r: Option<C>)
        ensures
            r is Some == old(self)@.has_child,
            r == old(self).held(),
            final(self)@ == exited(old(self)@),
            final(self).held() is None,
    {
        self.child.take()
    }

    /// Takes back a polled process that is still running.
    pub fn restore_child(&mut self, child: C)
        ensures
            final(self)@ == (KernelStateV { has_child: true, ..old(self)@ }),
            final(self).held() == Some(child),
    {
        self.child = Some(child);
    }

    /// The version to start again where a restart is wanted (see
    /// `wants_restart`).
    pub fn restart_version(&self) -> (r: Option<String>)
        ensures
            r is Some == wants_restart(self@),
            r matches Some(v) ==> self@.version == Some(v@),
    {
        if self.desired_running && self.restart_on_crash && self.child.is_none() {
            match &self.version {
                Some(v) => Some(v.clone()),
                None => None,
            }
        } else {
            None
        }
    }

    /// Whether restarting should still go on: the kernel is meant to run,
    /// restarts are on and no process is held.
    pub fn restart_still_wanted(&self) -> (r: bool)
        ensures
            r == (self@.desired_running && self@.restart_on_crash && !self@.has_child),
    {
        self.desired_running && self.restart_on_crash && self.child.is_none()
    }

    /// Offers a restarted process (see `offered`). One that is not kept is
    /// handed back, to be killed, and the process held before stays held.
    pub fn offer_restarted(&mut self, child: C) -> (r: Option<C>)
        ensures
            final(self)@ == offered(old(self)@),
            r is None <==> (old(self)@.desired_running && !old(self)@.has_child),
            r is None ==> final(self).held() == Some(child),
            r is Some ==> r == Some(child) && final(self).held() == old(self).held(),
            old(self)@.has_child ==> final(self).held() == old(self).held(),
    {
        if self.desired_running && self.child.is_none() {
            self.child = Some(child);
            None
        } else {
            Some(child)
        }
    }

    /// What the monitor does after polling the held process: a process
    /// still running is polled again after `POLL_INTERVAL_SECS`; after an
    /// exit the kernel is started again after `RESTART_DELAY_SECS` where a
    /// restart is wanted (see `wants_restart`), and polled again at once
    /// where it is not.
    pub fn after_poll(&self, exited: bool) -> (r: MonitorStep)
        ensures
            !exited ==> r == MonitorStep::Wait(POLL_INTERVAL_SECS),
            exited && wants_restart(self@) ==> (r matches MonitorStep::Restart { delay_secs, version }
                && delay_secs == RESTART_DELAY_SECS && self@.version == Some(version@)),
            exited && !wants_restart(self@) ==> r == MonitorStep::PollAgain,
    {
        if !exited {
            return MonitorStep::Wait(POLL_INTERVAL_SECS);
        }
        match self.restart_version() {
            Some(v) => MonitorStep::Restart { delay_secs: RESTART_DELAY_SECS, version: v },
            None => MonitorStep::PollAgain,
        }
    }
}

/// The seconds between two polls of a running kernel.
pub const POLL_INTERVAL_SECS: u64 = 1;

/// The seconds between a kernel's exit and its restart.
pub const RESTART_DELAY_SECS: u64 = 3;

/// The seconds between a failed restart and the next attempt.
pub const RETRY_DELAY_SECS: u64 = 5;

/// The monitor's next move after a poll.
#[derive(Debug)]
pub enum MonitorStep {
    /// Wait this many seconds, then poll again.
    Wait(u64),
    /// Poll again at once.
    PollAgain,
    /// Wait `delay_secs`, then start `version` again.
    Restart { delay_secs: u64, version: String },
}

/// How one restart attempt went.
#[derive(Debug, PartialEq, Eq, Structural, Clone, Copy)]
pub enum RestartOutcome {
    /// A restart was no longer wanted when the attempt began.
    NotWanted,
    /// The version's executable is missing.
    BinaryMissing,
    /// Spawning the executable failed.
    SpawnFailed,
    /// A process was spawned and offered (see `offer_restarted`).
    Spawned,
}

/// What follows a restart attempt.
#[derive(Debug, PartialEq, Eq, Structural, Clone, Copy)]
pub enum RestartNext {
    /// Restarting is over; go back to polling.
    Finish,
    /// Try again after this many seconds.
    RetryAfter(u64),
}

/// A failed spawn is retried after `RETRY_DELAY_SECS`; every other outcome
/// ends the restart.
pub fn after_restart_attempt(outcome: RestartOutcome) -> (r: RestartNext)
    ensures
        r == (if outcome == RestartOutcome::SpawnFailed {
            RestartNext::RetryAfter(RETRY_DELAY_SECS)
        } else {
            RestartNext::Finish
        }),
{
    match outcome {
        RestartOutcome::SpawnFailed => RestartNext::RetryAfter(RETRY_DELAY_SECS),
        _ => RestartNext::Finish,
    }
}

/// The arguments the kernel is started with: `-d` and the program's home.
pub fn kernel_args(home: &str) -> (r: Vec<String>)
    ensures
        r@.len() == 2,
        r@[0]@ == "-d"@,
        r@[1]@ == home@,
{
    let mut r: Vec<String> = Vec::new();
    r.push("-d".to_owned());
    r.push(home.to_owned());
    r
}

/// The first refusal of a start after the held process was checked: no
/// active version. Otherwise the version and the path of its executable.
pub fn start_plan(active: Option<String>, home: &str, windows: bool) -> (r: Result<(String, String), KernelError>)
    ensures
        match active {
            None => r == Err::<(String, String), KernelError>(KernelError::NoActiveVersion),
            Some(v) => r matches Ok((version, binary)) && version@ == v@
                && binary@ == join(join(join(home@, "kernels"@), v@), kernel_binary_name(windows)),
        },
{
    match active {
        None => Err(KernelError::NoActiveVersion),
        Some(v) => {
            let binary = kernel_binary_path(home, v.as_str(), windows);
            Ok((v, binary))
        }
    }
}

/// The refusal of a start whose executable is missing.
pub fn require_binary(binary: String, exists: bool) -> (r: Result<String, KernelError>)
    ensures
        exists ==> r == Ok::<String, KernelError>(binary),
        !exists ==> r == Err::<String, KernelError>(KernelError::BinaryNotFound(binary)),
{
    if exists {
        Ok(binary)
    } else {
        Err(KernelError::BinaryNotFound(binary))
    }
}

/// The refusal of a spawned process that has no PID.
pub fn require_pid(pid: Option<u32>) -> (r: Result<u32, KernelError>)
    ensures
        match pid {
            Some(p) => r == Ok::<u32, KernelError>(p),
            None => r == Err::<u32, KernelError>(KernelError::NoChildPid),
        },
{
    match pid {
        Some(p) => Ok(p),
        None => Err(KernelError::NoChildPid),
    }
}

/// Whether applying a new configuration restarts the kernel: only where
/// it is running; a stopped kernel stays stopped.
pub fn restarts_on_reload(status: &KernelManagerStatus) -> (r: bool)
    ensures
        r == status.running,
{
    status.running
}

/// Whether a supervisor state holds a process is what its view says.
pub proof fn lemma_held_matches_view<C>(s: KernelState<C>)
    ensures
        s@.has_child == s.held() is Some,
{
}

/// Once stopped, the kernel is not restarted: neither the stop itself nor
/// any number of exits leave a restart wanted, and a restarted process
/// offered afterwards is refused, until a start records a new process.
pub proof fn lemma_stop_prevents_restart(s: KernelStateV)
    ensures
        !wants_restart(stopped(s)),
        !wants_restart(exited(stopped(s))),
        exited(exited(stopped(s))) == exited(stopped(s)),
        offered(stopped(s)) == stopped(s),
        offered(exited(stopped(s))) == exited(stopped(s)),
{
}

} // verus!
