//! Waiting for a command: the time limit, the memory limit and the result.

use crate::config::SandboxConfig;
use crate::error::SandboxError;
use crate::executor::MacOSExecutor;
use crate::time::TimeSpan;
use vstd::prelude::*;

verus! {

/// Time limit of a command without a configured one.
pub const DEFAULT_TIMEOUT_SECS: u64 = 3600;

/// Pause between two looks at a running command.
pub const POLL_MILLIS: u64 = 10;

/// Pause between two looks at a command that comes close to its memory limit.
pub const CLOSE_POLL_MILLIS: u64 = 2;

/// The watch over a running command.
#[derive(Clone, Copy, Debug)]
pub struct Watch {
    pub child_pid: i32,
    pub timeout: TimeSpan,
    pub memory_limit: Option<u64>,
    pub killed_by_timeout: bool,
    pub killed_by_oom: bool,
}

/// What follows from one non-blocking wait.
#[derive(Clone, Copy, Debug, PartialEq, Eq, Structural)]
pub enum PollStep {
    /// The command ended: collect its output.
    Collect,
    /// The command still runs: kill the process tree where `kill` says so, then
    /// measure its memory where `measure` says so.
    Continue { kill: bool, measure: bool },
    /// The wait failed: kill the process tree and give up.
    Fail,
}

/// What follows from a look at the memory of a running command.
#[derive(Clone, Copy, Debug, PartialEq, Eq, Structural)]
pub struct Pace {
    /// Kill the process tree.
    pub kill: bool,
    /// Pause before the next wait.
    pub sleep_millis: u64,
}

impl Watch {
    /// The memory that `used` reports is above the limit.
    pub open spec fn over_limit(self, used: Option<u64>) -> bool {
        self.memory_limit matches Some(limit) && used matches Some(bytes) && bytes > limit
    }

    /// The memory that `used` reports is above six tenths of the limit, which
    /// are counted in whole tenths.
    pub open spec fn near_limit(self, used: Option<u64>) -> bool {
        self.memory_limit matches Some(limit) && used matches Some(bytes) && bytes > limit / 10 * 6
    }

    /// A look after `elapsed` kills the process tree for its run time.
    pub open spec fn kills_for_time(self, elapsed: TimeSpan) -> bool {
        elapsed@ > self.timeout@ && !self.killed_by_timeout
    }

    /// A look that measured `used` kills the process tree for its memory.
    pub open spec fn kills_for_memory(self, used: Option<u64>) -> bool {
        self.over_limit(used) && !self.killed_by_oom
    }

    /// The watch after a look at the time.
    pub open spec fn after_time(self, elapsed: TimeSpan) -> Watch {
        Watch { killed_by_timeout: self.killed_by_timeout || elapsed@ > self.timeout@, ..self }
    }

    /// The watch after a look at the memory.
    pub open spec fn after_memory(self, used: Option<u64>) -> Watch {
        Watch { killed_by_oom: self.killed_by_oom || self.over_limit(used), ..self }
    }

    /// The watch over a command that was just started.
    pub fn new(child_pid: i32, config: &SandboxConfig) -> (watch: Self)
        ensures
            watch.child_pid == child_pid,
            match config.wall_time_limit {
                Some(limit) => watch.timeout == limit,
                None => watch.timeout.secs() == 3600 && watch.timeout.nanos() == 0
                    && watch.timeout@ == 3_600_000_000_000,
            },
            watch.memory_limit == config.memory_limit,
            !watch.killed_by_timeout,
            !watch.killed_by_oom,
    {
        let timeout = match config.wall_time_limit {
            Some(limit) => limit,
            None => TimeSpan::from_secs(DEFAULT_TIMEOUT_SECS),
        };
        Watch {
            child_pid,
            timeout,
            memory_limit: config.memory_limit,
            killed_by_timeout: false,
            killed_by_oom: false,
        }
    }

    /// Takes the `result` of a wait for the command that came back when the
    /// command had run for `elapsed`.
    pub fn poll(&mut self, result: i32, elapsed: &TimeSpan) -> (step: PollStep)
        ensures
            step == (if result == old(self).child_pid {
                PollStep::Collect
            } else if result == 0 {
                PollStep::Continue {
                    kill: old(self).kills_for_time(*elapsed),
                    measure: old(self).memory_limit is Some && !old(self).killed_by_oom,
                }
            } else {
                PollStep::Fail
            }),
            *final(self) == (if step is Continue {
                old(self).after_time(*elapsed)
            } else {
                *old(self)
            }),
            // a command that still runs is killed on the first look past its time
            result != old(self).child_pid && result == 0 ==> step == (PollStep::Continue {
                kill: elapsed@ > old(self).timeout@ && !old(self).killed_by_timeout,
                measure: old(self).memory_limit is Some && !old(self).killed_by_oom,
            }),
            final(self).killed_by_timeout == (old(self).killed_by_timeout || (result != old(
                self,
            ).child_pid && result == 0 && elapsed@ > old(self).timeout@)),
            final(self).killed_by_oom == old(self).killed_by_oom,
            final(self).child_pid == old(self).child_pid,
            final(self).timeout == old(self).timeout,
            final(self).memory_limit == old(self).memory_limit,
    {
        if result == self.child_pid {
            PollStep::Collect
        } else if result == 0 {
            // Still running, check timeout
            let late = elapsed.exceeds(&self.timeout);
            let kill = late && !self.killed_by_timeout;
            if kill {
                self.killed_by_timeout = true;
            }
            PollStep::Continue { kill, measure: self.memory_limit.is_some() && !self.killed_by_oom }
        } else {
            PollStep::Fail
        }
    }

    /// Takes the memory that the process tree uses, where it was measured.
    pub fn pace(&mut self, used: Option<u64>) -> (pace: Pace)
        ensures
            pace == (Pace {
                kill: old(self).kills_for_memory(used),
                sleep_millis: if old(self).near_limit(used) && !old(self).over_limit(used)
                    && !old(self).killed_by_oom {
                    2
                } else {
                    10
                },
            }),
            *final(self) == old(self).after_memory(used),
            // memory above the limit kills once, memory above six tenths of it
            // shortens the pause, and nothing else does either
            match (old(self).memory_limit, used) {
                (Some(limit), Some(bytes)) => {
                    &&& pace.kill == (bytes > limit && !old(self).killed_by_oom)
                    &&& pace.sleep_millis == (if limit / 10 * 6 < bytes <= limit && !old(
                        self,
                    ).killed_by_oom {
                        2
                    } else {
                        10int
                    })
                    &&& final(self).killed_by_oom == (old(self).killed_by_oom || bytes > limit)
                },
                _ => {
                    &&& !pace.kill
                    &&& pace.sleep_millis == 10
                    &&& final(self).killed_by_oom == old(self).killed_by_oom
                },
            },
            final(self).killed_by_timeout == old(self).killed_by_timeout,
            final(self).child_pid == old(self).child_pid,
            final(self).timeout == old(self).timeout,
            final(self).memory_limit == old(self).memory_limit,
    {
        let mut kill = false;
        let mut sleep_millis: u64 = POLL_MILLIS;
        if let Some(limit) = self.memory_limit {
            if let Some(bytes) = used {
                if !self.killed_by_oom {
                    if bytes > limit {
                        kill = true;
                        self.killed_by_oom = true;
                    } else if bytes > limit / 10 * 6 {
                        sleep_millis = CLOSE_POLL_MILLIS;
                    }
                }
            }
        }
        Pace { kill, sleep_millis }
    }
}

/// `libc::WIFEXITED` tests whether the low seven bits of a wait status are zero.
pub assume_specification[ libc::WIFEXITED ](status: libc::c_int) -> (exited: bool)
    ensures
        exited == (status & 0x7f == 0),
;

/// `libc::WEXITSTATUS` takes the second lowest byte of a wait status.
pub assume_specification[ libc::WEXITSTATUS ](status: libc::c_int) -> (code: libc::c_int)
    ensures
        code == (status >> 8) & 0xff,
;

/// `libc::WIFSIGNALED` tests whether the low seven bits of a wait status are
/// neither all zero nor all one.
pub assume_specification[ libc::WIFSIGNALED ](status: libc::c_int) -> (signaled: bool)
    ensures
        signaled == (status & 0x7f != 0 && status & 0x7f != 0x7f),
;

/// `libc::WTERMSIG` takes the low seven bits of a wait status.
pub assume_specification[ libc::WTERMSIG ](status: libc::c_int) -> (signal: libc::c_int)
    ensures
        signal == status & 0x7f,
;

/// Exit code and signal in a wait status.
pub open spec fn decoded_status(status: i32) -> (i32, Option<i32>) {
    if status & 0x7f == 0 {
        ((status >> 8) & 0xff, None)
    } else if status & 0x7f != 0x7f {
        ((-1) as i32, Some(status & 0x7f))
    } else {
        ((-1) as i32, None)
    }
}

impl MacOSExecutor {
    /// Exit code and signal of a command that ended with `status`.
    pub fn exit_status(status: i32) -> (outcome: (i32, Option<i32>))
        ensures
            outcome == decoded_status(status),
            status & 0x7f == 0 ==> outcome.0 == (status >> 8) & 0xff && outcome.1 is None,
            status & 0x7f != 0 && status & 0x7f != 0x7f ==> outcome == (-1i32, Some(status & 0x7f)),
            status & 0x7f == 0x7f ==> outcome == (-1i32, None::<i32>),
    {
        if libc::WIFEXITED(status) {
            (libc::WEXITSTATUS(status), None)
        } else if libc::WIFSIGNALED(status) {
            (-1, Some(libc::WTERMSIG(status)))
        } else {
            (-1, None)
        }
    }
}

/// What a command used, as the kernel reports it: peak memory in bytes, time
/// in user code and time in the kernel.
#[derive(Clone, Copy, Debug, PartialEq, Eq, Structural)]
pub struct Usage {
    pub max_rss: i64,
    pub user_secs: i64,
    pub user_micros: i32,
    pub system_secs: i64,
    pub system_micros: i32,
}

/// The bits of a number, read as an unsigned number.
pub open spec fn as_unsigned(value: i64) -> int {
    if value >= 0 {
        value as int
    } else {
        value + 0x1_0000_0000_0000_0000
    }
}

impl Usage {
    /// User time and system time together, in nanoseconds.
    pub open spec fn cpu_nanos(self) -> int {
        (as_unsigned(self.user_secs) + as_unsigned(self.system_secs)) * 1_000_000_000 + (
        self.user_micros + self.system_micros) * 1000
    }

    /// The time fits: the microseconds are counts of which the nanoseconds fit
    /// into 32 bits, and the seconds of the sum fit into 64 bits.
    pub open spec fn fits(self) -> bool {
        &&& 0 <= self.user_micros <= 4_294_967
        &&& 0 <= self.system_micros <= 4_294_967
        &&& self.cpu_nanos() < 0x1_0000_0000_0000_0000 * 1_000_000_000
    }

    /// Whether the time fits.
    pub fn is_representable(&self) -> (fits: bool)
        ensures
            fits == self.fits(),
            self.user_secs >= 0 && self.system_secs >= 0 && 0 <= self.user_micros < 1_000_000 && 0
                <= self.system_micros < 1_000_000 ==> fits,
    {
        let user: u64 = unsigned(self.user_secs);
        let system: u64 = unsigned(self.system_secs);
        if self.user_micros < 0 || self.user_micros > 4_294_967 || self.system_micros < 0
            || self.system_micros > 4_294_967 {
            return false;
        }
        let nanos: u128 = (user as u128 + system as u128) * 1_000_000_000 + (
        self.user_micros as u128 + self.system_micros as u128) * 1000;
        nanos < 18_446_744_073_709_551_616_000_000_000u128
    }

    /// User time and system time together.
    pub fn cpu_time(&self) -> (time: TimeSpan)
        requires
            self.fits(),
        ensures
            time@ == self.cpu_nanos(),
            self.user_secs >= 0 && self.system_secs >= 0 ==> time@ == self.user_secs * 1_000_000_000
                + self.user_micros * 1000 + self.system_secs * 1_000_000_000 + self.system_micros
                * 1000,
    {
        let user = TimeSpan::new(unsigned(self.user_secs), self.user_micros as u32 * 1000);
        let system = TimeSpan::new(unsigned(self.system_secs), self.system_micros as u32 * 1000);
        user.plus(&system)
    }
}

fn unsigned(value: i64) -> (bits: u64)
    ensures
        bits == as_unsigned(value),
{
    assert(value >= 0 ==> value as u64 == value) by (bit_vector);
    assert(value < 0 ==> value as u64 == value + 0x1_0000_0000_0000_0000) by (bit_vector);
    #[verifier::truncate]
    (value as u64)
}

/// What became of a command.
#[derive(Debug)]
pub struct ExecutionResult {
    pub stdout: String,
    pub stderr: String,
    pub exit_code: i32,
    pub duration: TimeSpan,
    pub killed_by_timeout: bool,
    pub killed_by_oom: bool,
    pub signal: Option<i32>,
    pub peak_memory: Option<u64>,
    pub cpu_time: Option<TimeSpan>,
}

impl Watch {
    /// The result of a command that ended with `status`.
    pub fn collect(
        &self,
        status: i32,
        usage: &Usage,
        stdout: String,
        stderr: String,
        duration: TimeSpan,
    ) -> (result: ExecutionResult)
        requires
            usage.fits(),
        ensures
            result.stdout == stdout,
            result.stderr == stderr,
            (result.exit_code, result.signal) == decoded_status(status),
            result.duration == duration,
            result.killed_by_timeout == self.killed_by_timeout,
            result.killed_by_oom == self.killed_by_oom,
            result.peak_memory matches Some(bytes) && bytes == as_unsigned(usage.max_rss),
            result.cpu_time matches Some(time) && time@ == usage.cpu_nanos(),
            status & 0x7f == 0 ==> result.exit_code == (status >> 8) & 0xff && result.signal is None,
            status & 0x7f != 0 && status & 0x7f != 0x7f ==> result.exit_code == -1 && result.signal
                == Some(status & 0x7f),
            status & 0x7f == 0x7f ==> result.exit_code == -1 && result.signal is None,
            usage.max_rss >= 0 ==> result.peak_memory->0 == usage.max_rss,
            usage.max_rss < 0 ==> result.peak_memory->0 == usage.max_rss + 0x1_0000_0000_0000_0000,
            usage.user_secs >= 0 && usage.system_secs >= 0 ==> result.cpu_time->0@
                == usage.user_secs * 1_000_000_000 + usage.user_micros * 1000 + usage.system_secs
                * 1_000_000_000 + usage.system_micros * 1000,
    {
        let (exit_code, signal) = MacOSExecutor::exit_status(status);
        ExecutionResult {
            stdout,
            stderr,
            exit_code,
            duration,
            killed_by_timeout: self.killed_by_timeout,
            killed_by_oom: self.killed_by_oom,
            signal,
            peak_memory: Some(unsigned(usage.max_rss)),
            cpu_time: Some(usage.cpu_time()),
        }
    }

    /// The error for a wait that failed with the system's `reason`.
    pub fn wait_failure(reason: &str) -> (error: SandboxError)
        ensures
            error matches SandboxError::ExecutionFailed(message) && message@ == "wait4 failed: "@
                + reason@,
    {
        SandboxError::ExecutionFailed("wait4 failed: ".to_owned().concat(reason))
    }
}

/// One look at a running command: the time since its start and the memory of
/// its process tree, where that was measured.
pub struct Look {
    pub elapsed: TimeSpan,
    pub used: Option<u64>,
}

impl Watch {
    /// The watch after one look: first at the time, then at the memory.
    pub open spec fn after_look(self, look: Look) -> Watch {
        self.after_time(look.elapsed).after_memory(look.used)
    }

    /// The watch after all of `looks`.
    pub open spec fn after_looks(self, looks: Seq<Look>) -> Watch
        decreases looks.len(),
    {
        if looks.len() == 0 {
            self
        } else {
            self.after_looks(looks.drop_last()).after_look(looks.last())
        }
    }
}

/// The result says that the command was killed for its run time exactly where
/// some look came after the time limit, and that it was killed for its memory
/// exactly where some look measured more than the limit.
pub proof fn law_flags_tell_what_was_seen(watch: Watch, looks: Seq<Look>)
    ensures
        watch.after_looks(looks).child_pid == watch.child_pid,
        watch.after_looks(looks).timeout == watch.timeout,
        watch.after_looks(looks).memory_limit == watch.memory_limit,
        watch.after_looks(looks).killed_by_timeout <==> watch.killed_by_timeout || exists|i: int|
            #![trigger looks[i]]
            0 <= i < looks.len() && looks[i].elapsed@ > watch.timeout@,
        watch.after_looks(looks).killed_by_oom <==> watch.killed_by_oom || exists|i: int|
            #![trigger looks[i]]
            0 <= i < looks.len() && (watch.memory_limit matches Some(limit)
                && looks[i].used matches Some(bytes) && bytes > limit),
    decreases looks.len(),
{
    if looks.len() > 0 {
        let rest = looks.drop_last();
        law_flags_tell_what_was_seen(watch, rest);
        let last = looks.len() - 1;
        assert(looks[last] == looks.last());
        assert forall|i: int| #![trigger looks[i]] 0 <= i < rest.len() implies looks[i]
            == rest[i] by {}
        if exists|i: int|
            #![trigger rest[i]]
            0 <= i < rest.len() && rest[i].elapsed@ > watch.timeout@ {
            let i = choose|i: int|
                #![trigger rest[i]]
                0 <= i < rest.len() && rest[i].elapsed@ > watch.timeout@;
            assert(looks[i].elapsed@ > watch.timeout@);
        }
        if exists|i: int|
            #![trigger rest[i]]
            0 <= i < rest.len() && watch.over_limit(rest[i].used) {
            let i = choose|i: int|
                #![trigger rest[i]]
                0 <= i < rest.len() && watch.over_limit(rest[i].used);
            assert(watch.over_limit(looks[i].used));
        }
    }
}

proof fn lemma_earlier_look(watch: Watch, looks: Seq<Look>, i: int, j: int)
    requires
        0 <= i < j <= looks.len(),
    ensures
        looks[i].elapsed@ > watch.timeout@ ==> watch.after_looks(looks.take(j)).killed_by_timeout,
        watch.over_limit(looks[i].used) ==> watch.after_looks(looks.take(j)).killed_by_oom,
{
    law_flags_tell_what_was_seen(watch, looks.take(j));
    assert(looks.take(j)[i] == looks[i]);
}

/// The process tree is killed at most once for its run time and at most once
/// for its memory.
pub proof fn law_kills_once(watch: Watch, looks: Seq<Look>, i: int, j: int)
    requires
        0 <= i < j < looks.len(),
    ensures
        !(watch.after_looks(looks.take(i)).kills_for_time(looks[i].elapsed) && watch.after_looks(
            looks.take(j),
        ).kills_for_time(looks[j].elapsed)),
        !(watch.after_looks(looks.take(i)).after_time(looks[i].elapsed).kills_for_memory(
            looks[i].used,
        ) && watch.after_looks(looks.take(j)).after_time(looks[j].elapsed).kills_for_memory(
            looks[j].used,
        )),
{
    lemma_earlier_look(watch, looks, i, j);
    law_flags_tell_what_was_seen(watch, looks.take(i));
}

/// A command without a memory limit is never killed for its memory.
pub proof fn law_no_limit_no_memory_kill(watch: Watch, looks: Seq<Look>)
    requires
        watch.memory_limit is None,
        !watch.killed_by_oom,
    ensures
        !watch.after_looks(looks).killed_by_oom,
{
    law_flags_tell_what_was_seen(watch, looks);
}

/// A command that exits with `code` has that exit code and no signal.
pub proof fn law_exit_code(code: i32)
    requires
        0 <= code < 256,
    ensures
        decoded_status((code * 256) as i32) == (code, None::<i32>),
{
    let status: i32 = (code * 256) as i32;
    assert(status & 0x7f == 0 && (status >> 8) & 0xff == code) by (bit_vector)
        requires
            0 <= code < 256,
            status == code * 256,
    ;
}

/// A command ended by `signal`, with or without a core dump, has that signal
/// and the exit code -1.
pub proof fn law_signal(signal: i32)
    requires
        0 < signal < 0x7f,
    ensures
        decoded_status(signal) == (-1i32, Some(signal)),
        decoded_status((signal + 0x80) as i32) == (-1i32, Some(signal)),
{
    let dumped: i32 = (signal + 0x80) as i32;
    assert(signal & 0x7f == signal && dumped & 0x7f == signal) by (bit_vector)
        requires
            0 < signal < 0x7f,
            dumped == signal + 0x80,
    ;
}

/// A command is marked as killed for its run time by exactly the look that
/// kills it: the first look that comes after the time limit. The memory limit
/// and a kill for memory make no difference to that.
pub proof fn law_marked_late_is_killed(watch: Watch, looks: Seq<Look>)
    requires
        !watch.killed_by_timeout,
    ensures
        watch.after_looks(looks).killed_by_timeout <==> exists|i: int|
            #![trigger looks[i]]
            0 <= i < looks.len() && watch.after_looks(looks.take(i)).kills_for_time(
                looks[i].elapsed,
            ),
        forall|i: int|
            #![trigger looks[i]]
            0 <= i < looks.len() ==> (watch.after_looks(looks.take(i)).kills_for_time(
                looks[i].elapsed,
            ) <==> looks[i].elapsed@ > watch.timeout@ && forall|j: int|
                #![trigger looks[j]]
                0 <= j < i ==> looks[j].elapsed@ <= watch.timeout@),
{
    law_flags_tell_what_was_seen(watch, looks);
    assert forall|i: int| #![trigger looks[i]] 0 <= i < looks.len() implies (watch.after_looks(
        looks.take(i),
    ).kills_for_time(looks[i].elapsed) <==> looks[i].elapsed@ > watch.timeout@ && forall|j: int|
        #![trigger looks[j]]
        0 <= j < i ==> looks[j].elapsed@ <= watch.timeout@) by {
        law_flags_tell_what_was_seen(watch, looks.take(i));
        assert forall|j: int| #![trigger looks[j]] 0 <= j < i implies looks[j] == looks.take(
            i,
        )[j] by {}
        if exists|j: int|
            #![trigger looks.take(i)[j]]
            0 <= j < i && looks.take(i)[j].elapsed@ > watch.timeout@ {
            let j = choose|j: int|
                #![trigger looks.take(i)[j]]
                0 <= j < i && looks.take(i)[j].elapsed@ > watch.timeout@;
            assert(looks[j].elapsed@ > watch.timeout@);
        }
    }
    if watch.after_looks(looks).killed_by_timeout {
        let i = choose|i: int|
            #![trigger looks[i]]
            0 <= i < looks.len() && looks[i].elapsed@ > watch.timeout@;
        let first = lemma_first_late(watch, looks, i);
        assert(watch.after_looks(looks.take(first)).kills_for_time(looks[first].elapsed));
    }
}

proof fn lemma_first_late(watch: Watch, looks: Seq<Look>, i: int) -> (first: int)
    requires
        0 <= i < looks.len(),
        looks[i].elapsed@ > watch.timeout@,
    ensures
        0 <= first <= i,
        looks[first].elapsed@ > watch.timeout@,
        forall|j: int| #![trigger looks[j]] 0 <= j < first ==> looks[j].elapsed@ <= watch.timeout@,
    decreases i,
{
    if forall|j: int| #![trigger looks[j]] 0 <= j < i ==> looks[j].elapsed@ <= watch.timeout@ {
        i
    } else {
        let j = choose|j: int|
            #![trigger looks[j]]
            0 <= j < i && looks[j].elapsed@ > watch.timeout@;
        lemma_first_late(watch, looks, j)
    }
}

/// Whether one look kills depends on the time and the time limit alone, or on
/// the memory and the memory limit alone, and on whether it was done before.
pub proof fn law_what_kills(watch: Watch, elapsed: TimeSpan, used: u64, limit: u64)
    ensures
        watch.kills_for_time(elapsed) <==> elapsed@ > watch.timeout@ && !watch.killed_by_timeout,
        watch.memory_limit == Some(limit) ==> (watch.kills_for_memory(Some(used)) <==> used > limit
            && !watch.killed_by_oom),
        watch.memory_limit is None ==> !watch.kills_for_memory(Some(used)),
        !watch.kills_for_memory(None),
        watch.after_time(elapsed).killed_by_timeout <==> watch.killed_by_timeout
            || watch.kills_for_time(elapsed),
        watch.after_memory(Some(used)).killed_by_oom <==> watch.killed_by_oom
            || watch.kills_for_memory(Some(used)),
        watch.after_time(elapsed).killed_by_oom == watch.killed_by_oom,
        watch.after_memory(Some(used)).killed_by_timeout == watch.killed_by_timeout,
        watch.after_memory(None) == watch,
{
}

/// A wait status made of an exit code, a core-dump flag and a signal gives back
/// the exit code where there is no signal, the signal where it is a real one,
/// and neither for a stopped command.
pub proof fn law_status_parts(code: i32, dumped: bool, signal: i32)
    requires
        0 <= code < 256,
        0 <= signal < 128,
    ensures
        ({
            let status = (code * 256 + (if dumped {
                128int
            } else {
                0
            }) + signal) as i32;
            &&& signal == 0 ==> decoded_status(status) == (code, None::<i32>)
            &&& 0 < signal < 127 ==> decoded_status(status) == (-1i32, Some(signal))
            &&& signal == 127 ==> decoded_status(status) == (-1i32, None::<i32>)
        }),
{
    let flag: i32 = if dumped {
        128
    } else {
        0
    };
    let status: i32 = (code * 256 + flag + signal) as i32;
    assert(status & 0x7f == signal && (status >> 8) & 0xff == code) by (bit_vector)
        requires
            0 <= code < 256,
            0 <= signal < 128,
            flag == 0 || flag == 128,
            status == code * 256 + flag + signal,
    ;
}

/// The reported CPU time is the user time and the system time together, to the
/// microsecond, and every time that a kernel counts in whole seconds and
/// microseconds below a million can be reported.
pub proof fn law_cpu_time(usage: Usage)
    requires
        usage.user_secs >= 0,
        usage.system_secs >= 0,
        0 <= usage.user_micros < 1_000_000,
        0 <= usage.system_micros < 1_000_000,
    ensures
        usage.fits(),
        usage.cpu_nanos() == 1000 * (usage.user_secs * 1_000_000 + usage.user_micros
            + usage.system_secs * 1_000_000 + usage.system_micros),
{
}

/// Counts below zero are read as their bits: as the number that is congruent to
/// them and fits into 64 bits without a sign. A usage can be reported exactly
/// where the nanoseconds of both microsecond counts fit into 32 bits and the
/// whole seconds of the sum into 64 bits.
pub proof fn law_reportable_usage(usage: Usage)
    ensures
        usage.user_secs >= 0 ==> as_unsigned(usage.user_secs) == usage.user_secs,
        usage.user_secs < 0 ==> as_unsigned(usage.user_secs) == usage.user_secs
            + 0x1_0000_0000_0000_0000,
        usage.cpu_nanos() == 1000 * (as_unsigned(usage.user_secs) * 1_000_000 + usage.user_micros
            + as_unsigned(usage.system_secs) * 1_000_000 + usage.system_micros),
        usage.fits() <==> 0 <= usage.user_micros * 1000 <= 0xffff_ffff && 0 <= usage.system_micros
            * 1000 <= 0xffff_ffff && usage.cpu_nanos() / 1_000_000_000 <= 0xffff_ffff_ffff_ffff,
{
}

} // verus!
