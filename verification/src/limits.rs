//! Resource limits: which ones the child process sets before it runs the
//! command, and how it reports one that the kernel rejected.
//!
//! A failed spawn carries only an error number, so the child reports which
//! limit was rejected through a side pipe.

use crate::config::SandboxConfig;
use crate::executor::MacOSExecutor;
use crate::text;
use crate::time::TimeSpan;
use vstd::prelude::*;

verus! {

pub const LIMIT_OPEN_FILES: u8 = 1;

pub const LIMIT_FILE_SIZE: u8 = 2;

pub const LIMIT_CPU_TIME: u8 = 3;

/// Length of a report: the limit, then the error number in four bytes.
pub const REPORT_LEN: usize = 5;

/// A limit that the child sets.
#[derive(Clone, Copy, Debug, PartialEq, Eq, Structural)]
pub enum Limit {
    /// `RLIMIT_NOFILE`
    OpenFiles,
    /// `RLIMIT_FSIZE`
    FileSize,
    /// `RLIMIT_CPU`
    CpuTime,
}

/// A limit with the value that its soft and its hard bound are set to.
#[derive(Clone, Copy, Debug, PartialEq, Eq, Structural)]
pub struct LimitRequest {
    pub limit: Limit,
    pub value: u64,
}

/// A limit that the kernel rejected, with the configured value.
#[derive(Clone, Copy, Debug, PartialEq, Eq, Structural)]
pub struct LimitFailure {
    pub limit: Limit,
    pub value: u64,
    pub errno: i32,
}

pub open spec fn open_files_requests(max_open_files: Option<u32>) -> Seq<LimitRequest> {
    match max_open_files {
        Some(files) => seq![LimitRequest { limit: Limit::OpenFiles, value: files as u64 }],
        None => Seq::empty(),
    }
}

pub open spec fn file_size_requests(max_file_size: Option<u64>) -> Seq<LimitRequest> {
    match max_file_size {
        Some(size) => seq![LimitRequest { limit: Limit::FileSize, value: size }],
        None => Seq::empty(),
    }
}

/// A limit below one second sets nothing: the kernel counts whole seconds.
pub open spec fn cpu_time_requests(cpu_time_limit: Option<TimeSpan>) -> Seq<LimitRequest> {
    match cpu_time_limit {
        Some(span) => if span@ >= 1_000_000_000 {
            seq![LimitRequest { limit: Limit::CpuTime, value: (span@ / 1_000_000_000) as u64 }]
        } else {
            Seq::empty()
        },
        None => Seq::empty(),
    }
}

/// The limits that the child sets, in order.
pub open spec fn limit_requests(
    max_open_files: Option<u32>,
    max_file_size: Option<u64>,
    cpu_time_limit: Option<TimeSpan>,
) -> Seq<LimitRequest> {
    open_files_requests(max_open_files) + file_size_requests(max_file_size) + cpu_time_requests(
        cpu_time_limit,
    )
}

/// The limits of a configuration.
pub open spec fn configured_requests(config: SandboxConfig) -> Seq<LimitRequest> {
    limit_requests(config.max_open_files, config.max_file_size, config.cpu_time_limit)
}

/// The limits that are still to be set. Holds no heap memory: it is used
/// between fork and exec, where nothing may be allocated.
#[derive(Clone, Copy, Debug)]
pub struct LimitRun {
    max_open_files: Option<u32>,
    max_file_size: Option<u64>,
    cpu_time_limit: Option<TimeSpan>,
}

impl LimitRun {
    /// The limits that are still to be set, in order.
    pub closed spec fn remaining(self) -> Seq<LimitRequest> {
        limit_requests(self.max_open_files, self.max_file_size, self.cpu_time_limit)
    }

    /// RLIMIT_NPROC is not among the limits: on macOS it counts the processes of
    /// the whole user. Neither is RLIMIT_AS, which the kernel rejects; memory is
    /// watched while the command runs.
    pub fn new(
        max_open_files: Option<u32>,
        max_file_size: Option<u64>,
        cpu_time_limit: Option<TimeSpan>,
    ) -> (run: Self)
        ensures
            run.remaining() == limit_requests(max_open_files, max_file_size, cpu_time_limit),
            max_open_files matches Some(files) ==> run.remaining().contains(
                LimitRequest { limit: Limit::OpenFiles, value: files as u64 },
            ),
            max_file_size matches Some(size) ==> run.remaining().contains(
                LimitRequest { limit: Limit::FileSize, value: size },
            ),
            cpu_time_limit matches Some(span) ==> span@ >= 1_000_000_000
                ==> run.remaining().contains(
                LimitRequest { limit: Limit::CpuTime, value: (span@ / 1_000_000_000) as u64 },
            ),
            run.remaining().len() == (if max_open_files is Some {
                1int
            } else {
                0
            }) + (if max_file_size is Some {
                1int
            } else {
                0
            }) + (if cpu_time_limit matches Some(span) && span@ >= 1_000_000_000 {
                1int
            } else {
                0
            }),
    {
        proof {
            lemma_requests_hold_each(max_open_files, max_file_size, cpu_time_limit);
        }
        LimitRun { max_open_files, max_file_size, cpu_time_limit }
    }

    /// The next limit to set.
    pub fn next_request(&mut self) -> (request: Option<LimitRequest>)
        ensures
            match request {
                Some(request) => old(self).remaining().len() > 0 && request == old(
                    self,
                ).remaining().first() && final(self).remaining() == old(
                    self,
                ).remaining().drop_first(),
                None => old(self).remaining().len() == 0 && final(self).remaining().len() == 0,
            },
    {
        if let Some(files) = self.max_open_files {
            self.max_open_files = None;
            assert(self.remaining() == old(self).remaining().drop_first());
            return Some(LimitRequest { limit: Limit::OpenFiles, value: files as u64 });
        }
        if let Some(size) = self.max_file_size {
            self.max_file_size = None;
            assert(self.remaining() == old(self).remaining().drop_first());
            return Some(LimitRequest { limit: Limit::FileSize, value: size });
        }
        if let Some(span) = self.cpu_time_limit {
            let secs: u64 = span.as_secs();
            self.cpu_time_limit = None;
            if secs > 0 {
                assert(self.remaining() == old(self).remaining().drop_first());
                return Some(LimitRequest { limit: Limit::CpuTime, value: secs });
            }
        }
        None
    }

    /// Gives up after the kernel rejected `limit` and returns the report.
    pub fn reject(&mut self, limit: Limit, errno: Option<i32>) -> (report: [u8; REPORT_LEN])
        ensures
            final(self).remaining().len() == 0,
            report@ == report_bytes(limit, errno),
            report@[0] == (match limit {
                Limit::OpenFiles => 1u8,
                Limit::FileSize => 2u8,
                Limit::CpuTime => 3u8,
            }),
            ({
                let bits = report@[1] + 0x100 * report@[2] + 0x1_0000 * report@[3] + 0x100_0000
                    * report@[4];
                let errno = match errno {
                    Some(errno) => errno as int,
                    None => 0,
                };
                bits == errno || bits == errno + 0x1_0000_0000
            }),
    {
        self.max_open_files = None;
        self.max_file_size = None;
        self.cpu_time_limit = None;
        MacOSExecutor::report_limit_failure(limit, errno)
    }
}

pub open spec fn limit_tag(limit: Limit) -> u8 {
    match limit {
        Limit::OpenFiles => LIMIT_OPEN_FILES,
        Limit::FileSize => LIMIT_FILE_SIZE,
        Limit::CpuTime => LIMIT_CPU_TIME,
    }
}

/// The bits of an error number, read as an unsigned number.
pub open spec fn errno_bits(errno: i32) -> int {
    if errno >= 0 {
        errno as int
    } else {
        errno + 0x1_0000_0000
    }
}

/// The report of a rejected limit: the limit, then the error number, zero where
/// there is none, low byte first (the byte order of every Mac).
pub open spec fn report_bytes(limit: Limit, errno: Option<i32>) -> Seq<u8> {
    let bits = errno_bits(
        match errno {
            Some(errno) => errno,
            None => 0,
        },
    );
    seq![
        limit_tag(limit),
        (bits % 0x100) as u8,
        (bits / 0x100 % 0x100) as u8,
        (bits / 0x1_0000 % 0x100) as u8,
        (bits / 0x100_0000) as u8,
    ]
}

/// The error number in a report.
pub open spec fn reported_errno(report: Seq<u8>) -> i32 {
    let bits = report[1] + 0x100 * report[2] + 0x1_0000 * report[3] + 0x100_0000 * report[4];
    if bits <= i32::MAX {
        bits as i32
    } else {
        (bits - 0x1_0000_0000) as i32
    }
}

/// The value that a configuration has for a limit.
pub open spec fn configured_value(config: SandboxConfig, limit: Limit) -> Option<u64> {
    match limit {
        Limit::OpenFiles => match config.max_open_files {
            Some(files) => Some(files as u64),
            None => None,
        },
        Limit::FileSize => config.max_file_size,
        Limit::CpuTime => match config.cpu_time_limit {
            Some(span) => Some((span@ / 1_000_000_000) as u64),
            None => None,
        },
    }
}

/// The limit with the given tag.
pub open spec fn tagged_limit(tag: u8) -> Option<Limit> {
    if tag == LIMIT_OPEN_FILES {
        Some(Limit::OpenFiles)
    } else if tag == LIMIT_FILE_SIZE {
        Some(Limit::FileSize)
    } else if tag == LIMIT_CPU_TIME {
        Some(Limit::CpuTime)
    } else {
        None
    }
}

/// What a report says: nothing unless it is complete and names a limit that is
/// configured.
pub open spec fn reported_failure(report: Seq<u8>, config: SandboxConfig) -> Option<LimitFailure> {
    if report.len() != REPORT_LEN {
        None
    } else {
        match tagged_limit(report[0]) {
            Some(limit) => match configured_value(config, limit) {
                Some(value) => Some(LimitFailure { limit, value, errno: reported_errno(report) }),
                None => None,
            },
            None => None,
        }
    }
}

/// The name of the setting behind a limit.
pub open spec fn setting_name(limit: Limit) -> Seq<char> {
    match limit {
        Limit::OpenFiles => "max_open_files"@,
        Limit::FileSize => "max_file_size"@,
        Limit::CpuTime => "cpu_time_limit"@,
    }
}

/// The name of the kernel's limit.
pub open spec fn rlimit_name(limit: Limit) -> Seq<char> {
    match limit {
        Limit::OpenFiles => "RLIMIT_NOFILE"@,
        Limit::FileSize => "RLIMIT_FSIZE"@,
        Limit::CpuTime => "RLIMIT_CPU"@,
    }
}

/// The value of a limit with its unit.
pub open spec fn value_text(limit: Limit, value: u64) -> Seq<char> {
    match limit {
        Limit::CpuTime => text::decimal_text(value as nat) + "s"@,
        _ => text::decimal_text(value as nat),
    }
}

/// The message for a rejected limit, with the system's `reason`.
pub open spec fn failure_text(failure: LimitFailure, reason: Seq<char>) -> Seq<char> {
    "cannot apply "@ + setting_name(failure.limit) + "="@ + value_text(
        failure.limit,
        failure.value,
    ) + " ("@ + rlimit_name(failure.limit) + "): "@ + reason
}

/// Calls `std::io::Error::from_raw_os_error` for the system's description of an
/// error number. The words are the system's own, so nothing is claimed of them.
#[verifier::external_body]
fn os_error_text(errno: i32) -> (reason: String) {
    std::io::Error::from_raw_os_error(errno).to_string()
}

/// `reason` is what the system said when it was asked about `errno`.
pub closed spec fn system_said(errno: i32, reason: String) -> bool {
    call_ensures(os_error_text, (errno,), reason)
}

proof fn lemma_system_said(errno: i32, reason: String)
    ensures
        system_said(errno, reason) == call_ensures(os_error_text, (errno,), reason),
{
}

impl MacOSExecutor {
    /// The report of a rejected limit. Does not allocate.
    pub fn report_limit_failure(limit: Limit, errno: Option<i32>) -> (report: [u8; REPORT_LEN])
        ensures
            report@ == report_bytes(limit, errno),
            report@[0] == (match limit {
                Limit::OpenFiles => 1u8,
                Limit::FileSize => 2u8,
                Limit::CpuTime => 3u8,
            }),
            ({
                let bits = report@[1] + 0x100 * report@[2] + 0x1_0000 * report@[3] + 0x100_0000
                    * report@[4];
                let errno = match errno {
                    Some(errno) => errno as int,
                    None => 0,
                };
                bits == errno || bits == errno + 0x1_0000_0000
            }),
    {
        let errno: i32 = match errno {
            Some(errno) => errno,
            None => 0,
        };
        let bits: u32 = #[verifier::truncate] (errno as u32);
        assert(errno >= 0 ==> errno as u32 == errno) by (bit_vector);
        assert(errno < 0 ==> errno as u32 == errno + 0x1_0000_0000) by (bit_vector);
        let tag: u8 = match limit {
            Limit::OpenFiles => LIMIT_OPEN_FILES,
            Limit::FileSize => LIMIT_FILE_SIZE,
            Limit::CpuTime => LIMIT_CPU_TIME,
        };
        proof {
            lemma_four_bytes(bits as int);
        }
        [
            tag,
            (bits % 0x100) as u8,
            (bits / 0x100 % 0x100) as u8,
            (bits / 0x1_0000 % 0x100) as u8,
            (bits / 0x100_0000) as u8,
        ]
    }

    /// What a child's report says about the limits of `config`.
    pub fn decode_report(report: &[u8], config: &SandboxConfig) -> (failure: Option<LimitFailure>)
        ensures
            failure == reported_failure(report@, *config),
    {
        if report.len() != REPORT_LEN {
            return None;
        }
        let bits: u32 = report[1] as u32 + 0x100 * report[2] as u32 + 0x1_0000 * report[3] as u32
            + 0x100_0000 * report[4] as u32;
        let errno: i32 = #[verifier::truncate] (bits as i32);
        assert(bits <= 0x7fff_ffff ==> bits as i32 == bits) by (bit_vector);
        assert(bits > 0x7fff_ffff ==> bits as i32 == bits - 0x1_0000_0000) by (bit_vector);
        let tag: u8 = report[0];
        if tag == LIMIT_OPEN_FILES {
            match config.max_open_files {
                Some(files) => Some(
                    LimitFailure { limit: Limit::OpenFiles, value: files as u64, errno },
                ),
                None => None,
            }
        } else if tag == LIMIT_FILE_SIZE {
            match config.max_file_size {
                Some(size) => Some(LimitFailure { limit: Limit::FileSize, value: size, errno }),
                None => None,
            }
        } else if tag == LIMIT_CPU_TIME {
            match config.cpu_time_limit {
                Some(span) => Some(
                    LimitFailure { limit: Limit::CpuTime, value: span.as_secs(), errno },
                ),
                None => None,
            }
        } else {
            None
        }
    }

    /// The message for a rejected limit, with the system's `reason`.
    pub fn limit_failure_message(failure: &LimitFailure, reason: &str) -> (message: String)
        ensures
            message@ == failure_text(*failure, reason@),
    {
        let mut message = "cannot apply ".to_owned();
        let value = text::decimal(failure.value);
        match failure.limit {
            Limit::OpenFiles => {
                message.append("max_open_files");
                message.append("=");
                message.append(value.as_str());
                message.append(" (");
                message.append("RLIMIT_NOFILE");
            },
            Limit::FileSize => {
                message.append("max_file_size");
                message.append("=");
                message.append(value.as_str());
                message.append(" (");
                message.append("RLIMIT_FSIZE");
            },
            Limit::CpuTime => {
                let value = value.concat("s");
                message.append("cpu_time_limit");
                message.append("=");
                message.append(value.as_str());
                message.append(" (");
                message.append("RLIMIT_CPU");
            },
        }
        message.append("): ");
        message.append(reason);
        message
    }

    /// The message for a child's report, with the reason that `describe` gives
    /// for its error number.
    pub fn describe_report<D: Fn(i32) -> String>(
        report: &[u8],
        config: &SandboxConfig,
        describe: &D,
    ) -> (message: Option<String>)
        requires
            forall|errno: i32| #[trigger] call_requires(*describe, (errno,)),
        ensures
            match reported_failure(report@, *config) {
                Some(failure) => message matches Some(text) && exists|reason: String| #[trigger]
                    call_ensures(*describe, (failure.errno,), reason) && text@ == failure_text(
                        failure,
                        reason@,
                    ),
                None => message is None,
            },
    {
        match Self::decode_report(report, config) {
            Some(failure) => {
                let reason = describe(failure.errno);
                Some(Self::limit_failure_message(&failure, reason.as_str()))
            },
            None => None,
        }
    }

    /// Turn a child's report into a message naming the rejected setting.
    pub fn limit_failure(report: &[u8], config: &SandboxConfig) -> (message: Option<String>)
        ensures
            match reported_failure(report@, *config) {
                Some(failure) => message matches Some(text) && exists|reason: String| #[trigger]
                    system_said(failure.errno, reason) && text@ == failure_text(failure, reason@),
                None => message is None,
            },
    {
        let message = Self::describe_report(report, config, &os_error_text);
        proof {
            if let Some(failure) = reported_failure(report@, *config) {
                let reason = choose|reason: String| #[trigger]
                    call_ensures(os_error_text, (failure.errno,), reason) && message->0@
                        == failure_text(failure, reason@);
                lemma_system_said(failure.errno, reason);
            }
        }
        message
    }
}

/// A limit that the kernel rejects in the child is named to the caller: the
/// report reads back as the limit, the value that was to be set and the error
/// number, and the message names the setting and the kernel's limit.
pub proof fn law_rejected_limit_is_named(
    config: SandboxConfig,
    k: int,
    errno: Option<i32>,
    reason: Seq<char>,
)
    requires
        0 <= k < configured_requests(config).len(),
    ensures
        ({
            let request = configured_requests(config)[k];
            let failure = LimitFailure {
                limit: request.limit,
                value: request.value,
                errno: match errno {
                    Some(errno) => errno,
                    None => 0,
                },
            };
            &&& reported_failure(report_bytes(request.limit, errno), config) == Some(failure)
            &&& text::occurs_in(
                match request.limit {
                    Limit::OpenFiles => "max_open_files"@,
                    Limit::FileSize => "max_file_size"@,
                    Limit::CpuTime => "cpu_time_limit"@,
                },
                failure_text(failure, reason),
            )
            &&& text::occurs_in(
                match request.limit {
                    Limit::OpenFiles => "RLIMIT_NOFILE"@,
                    Limit::FileSize => "RLIMIT_FSIZE"@,
                    Limit::CpuTime => "RLIMIT_CPU"@,
                },
                failure_text(failure, reason),
            )
        }),
{
    let request = configured_requests(config)[k];
    let errno_or_zero = match errno {
        Some(errno) => errno,
        None => 0,
    };
    let failure = LimitFailure { limit: request.limit, value: request.value, errno: errno_or_zero };
    law_report_round_trip(request.limit, errno);
    let setting = setting_name(request.limit);
    let value = value_text(request.limit, request.value);
    let rlimit = rlimit_name(request.limit);
    assert(failure_text(failure, reason) == "cannot apply "@ + setting + ("="@ + value + " ("@
        + rlimit + "): "@ + reason));
    assert(failure_text(failure, reason) == ("cannot apply "@ + setting + "="@ + value + " ("@)
        + rlimit + ("): "@ + reason));
}

proof fn lemma_four_bytes(bits: int)
    requires
        0 <= bits < 0x1_0000_0000,
    ensures
        bits == bits % 0x100 + 0x100 * (bits / 0x100 % 0x100) + 0x1_0000 * (bits / 0x1_0000 % 0x100)
            + 0x100_0000 * (bits / 0x100_0000),
        0 <= bits / 0x100_0000 < 0x100,
{
    let second = bits / 0x100;
    let third = second / 0x100;
    assert(third == bits / 0x1_0000);
    assert(third / 0x100 == bits / 0x100_0000);
    assert(bits == bits % 0x100 + 0x100 * second);
    assert(second == second % 0x100 + 0x100 * third);
    assert(third == third % 0x100 + 0x100 * (third / 0x100));
}

/// A report reads back as the limit and the error number that it was made of.
pub proof fn law_report_round_trip(limit: Limit, errno: Option<i32>)
    ensures
        report_bytes(limit, errno).len() == REPORT_LEN,
        tagged_limit(report_bytes(limit, errno)[0]) == Some(limit),
        reported_errno(report_bytes(limit, errno)) == match errno {
            Some(errno) => errno,
            None => 0,
        },
{
    law_report_layout(limit, errno);
}

/// A report is five bytes: the number of the limit, then the error number in
/// two's complement, low byte first.
pub proof fn law_report_layout(limit: Limit, errno: Option<i32>)
    ensures
        report_bytes(limit, errno).len() == 5,
        report_bytes(limit, errno)[0] == match limit {
            Limit::OpenFiles => 1u8,
            Limit::FileSize => 2u8,
            Limit::CpuTime => 3u8,
        },
        ({
            let report = report_bytes(limit, errno);
            let bits = report[1] + 0x100 * report[2] + 0x1_0000 * report[3] + 0x100_0000
                * report[4];
            let errno = match errno {
                Some(errno) => errno as int,
                None => 0,
            };
            bits == errno || bits == errno + 0x1_0000_0000
        }),
{
    let errno = match errno {
        Some(errno) => errno,
        None => 0,
    };
    lemma_four_bytes(errno_bits(errno));
}

/// What a report says: the limit with that number, the value that was
/// configured for it, and the error number. A report of another length, with
/// another number, or about a limit that is not configured says nothing.
pub proof fn law_report_says(report: Seq<u8>, config: SandboxConfig)
    ensures
        report.len() != 5 ==> reported_failure(report, config) is None,
        report.len() == 5 && !(1 <= report[0] <= 3) ==> reported_failure(report, config) is None,
        report.len() == 5 && report[0] == 1 ==> match config.max_open_files {
            Some(files) => reported_failure(report, config) matches Some(failure) && failure.limit
                == Limit::OpenFiles && failure.value == files,
            None => reported_failure(report, config) is None,
        },
        report.len() == 5 && report[0] == 2 ==> match config.max_file_size {
            Some(size) => reported_failure(report, config) matches Some(failure) && failure.limit
                == Limit::FileSize && failure.value == size,
            None => reported_failure(report, config) is None,
        },
        report.len() == 5 && report[0] == 3 ==> match config.cpu_time_limit {
            Some(span) => reported_failure(report, config) matches Some(failure) && failure.limit
                == Limit::CpuTime && failure.value == (span@ / 1_000_000_000) as u64,
            None => reported_failure(report, config) is None,
        },
        reported_failure(report, config) matches Some(failure) ==> {
            let bits = report[1] + 0x100 * report[2] + 0x1_0000 * report[3] + 0x100_0000
                * report[4];
            bits == failure.errno || bits == failure.errno + 0x1_0000_0000
        },
{
}

/// The message for a rejected limit, setting by setting.
pub proof fn law_failure_message(value: u64, errno: i32, reason: Seq<char>)
    ensures
        failure_text(LimitFailure { limit: Limit::OpenFiles, value, errno }, reason)
            == "cannot apply max_open_files="@ + text::decimal_text(value as nat)
            + " (RLIMIT_NOFILE): "@ + reason,
        failure_text(LimitFailure { limit: Limit::FileSize, value, errno }, reason)
            == "cannot apply max_file_size="@ + text::decimal_text(value as nat)
            + " (RLIMIT_FSIZE): "@ + reason,
        failure_text(LimitFailure { limit: Limit::CpuTime, value, errno }, reason)
            == "cannot apply cpu_time_limit="@ + text::decimal_text(value as nat)
            + "s (RLIMIT_CPU): "@ + reason,
{
    let number = text::decimal_text(value as nat);
    reveal_strlit("cannot apply ");
    reveal_strlit("=");
    reveal_strlit(" (");
    reveal_strlit("): ");
    reveal_strlit("s");
    assert("cannot apply "@ + "max_open_files"@ + "="@ == "cannot apply max_open_files="@) by {
        reveal_strlit("max_open_files");
        reveal_strlit("cannot apply max_open_files=");
    }
    assert(" ("@ + "RLIMIT_NOFILE"@ + "): "@ == " (RLIMIT_NOFILE): "@) by {
        reveal_strlit("RLIMIT_NOFILE");
        reveal_strlit(" (RLIMIT_NOFILE): ");
    }
    assert("cannot apply "@ + "max_file_size"@ + "="@ == "cannot apply max_file_size="@) by {
        reveal_strlit("max_file_size");
        reveal_strlit("cannot apply max_file_size=");
    }
    assert(" ("@ + "RLIMIT_FSIZE"@ + "): "@ == " (RLIMIT_FSIZE): "@) by {
        reveal_strlit("RLIMIT_FSIZE");
        reveal_strlit(" (RLIMIT_FSIZE): ");
    }
    assert("cannot apply "@ + "cpu_time_limit"@ + "="@ == "cannot apply cpu_time_limit="@) by {
        reveal_strlit("cpu_time_limit");
        reveal_strlit("cannot apply cpu_time_limit=");
    }
    assert("s"@ + (" ("@ + "RLIMIT_CPU"@ + "): "@) == "s (RLIMIT_CPU): "@) by {
        reveal_strlit("RLIMIT_CPU");
        reveal_strlit("s (RLIMIT_CPU): ");
    }
    lemma_regroup(
        "cannot apply "@ + "max_open_files"@ + "="@,
        number,
        " ("@,
        "RLIMIT_NOFILE"@,
        "): "@,
        reason,
    );
    lemma_regroup(
        "cannot apply "@ + "max_file_size"@ + "="@,
        number,
        " ("@,
        "RLIMIT_FSIZE"@,
        "): "@,
        reason,
    );
    lemma_regroup(
        "cannot apply "@ + "cpu_time_limit"@ + "="@,
        number + "s"@,
        " ("@,
        "RLIMIT_CPU"@,
        "): "@,
        reason,
    );
    let head = "cannot apply "@ + "cpu_time_limit"@ + "="@;
    let tail = " ("@ + "RLIMIT_CPU"@ + "): "@;
    assert(head + (number + "s"@) + tail + reason =~= head + number + ("s"@ + tail) + reason);
}

proof fn lemma_regroup(
    head: Seq<char>,
    value: Seq<char>,
    open: Seq<char>,
    name: Seq<char>,
    close: Seq<char>,
    reason: Seq<char>,
)
    ensures
        head + value + open + name + close + reason == head + value + (open + name + close)
            + reason,
{
    assert(head + value + open + name + close + reason =~= head + value + (open + name + close)
        + reason);
}

proof fn lemma_requests_hold_each(
    max_open_files: Option<u32>,
    max_file_size: Option<u64>,
    cpu_time_limit: Option<TimeSpan>,
)
    ensures
        ({
            let requests = limit_requests(max_open_files, max_file_size, cpu_time_limit);
            &&& max_open_files matches Some(files) ==> requests.contains(
                LimitRequest { limit: Limit::OpenFiles, value: files as u64 },
            )
            &&& max_file_size matches Some(size) ==> requests.contains(
                LimitRequest { limit: Limit::FileSize, value: size },
            )
            &&& cpu_time_limit matches Some(span) ==> span@ >= 1_000_000_000 ==> requests.contains(
                LimitRequest { limit: Limit::CpuTime, value: (span@ / 1_000_000_000) as u64 },
            )
        }),
{
    let files = open_files_requests(max_open_files);
    let sizes = file_size_requests(max_file_size);
    let times = cpu_time_requests(cpu_time_limit);
    let requests = limit_requests(max_open_files, max_file_size, cpu_time_limit);
    assert(requests == files + sizes + times);
    if max_open_files is Some {
        assert(requests[0] == files[0]);
    }
    if max_file_size is Some {
        assert(requests[files.len() as int] == sizes[0]);
    }
    if times.len() > 0 {
        assert(requests[(files.len() + sizes.len()) as int] == times[0]);
    }
}

/// Each configured limit is set, to its configured value: the number of open
/// files, the file size, and the whole seconds of a CPU time of at least one.
pub proof fn law_configured_limits_are_set(config: SandboxConfig)
    ensures
        config.max_open_files matches Some(files) ==> configured_requests(config).contains(
            LimitRequest { limit: Limit::OpenFiles, value: files as u64 },
        ),
        config.max_file_size matches Some(size) ==> configured_requests(config).contains(
            LimitRequest { limit: Limit::FileSize, value: size },
        ),
        config.cpu_time_limit matches Some(span) ==> span@ >= 1_000_000_000 ==> configured_requests(
            config,
        ).contains(LimitRequest { limit: Limit::CpuTime, value: (span@ / 1_000_000_000) as u64 }),
{
    lemma_requests_hold_each(config.max_open_files, config.max_file_size, config.cpu_time_limit);
}

/// Nothing else is set: a request is for a limit that is configured, has the
/// configured value, and none for a CPU time below one second.
pub proof fn law_only_configured_limits_are_set(config: SandboxConfig, request: LimitRequest)
    requires
        configured_requests(config).contains(request),
    ensures
        request.limit == Limit::OpenFiles ==> (config.max_open_files matches Some(files)
            && request.value == files),
        request.limit == Limit::FileSize ==> (config.max_file_size matches Some(size)
            && request.value == size),
        request.limit == Limit::CpuTime ==> (config.cpu_time_limit matches Some(span) && span@
            >= 1_000_000_000 && request.value == (span@ / 1_000_000_000) as u64),
{
}

/// The limits are set in a fixed order: open files, file size, CPU time.
pub proof fn law_limits_in_order(config: SandboxConfig, i: int, j: int)
    requires
        0 <= i < j < configured_requests(config).len(),
    ensures
        configured_requests(config)[i].limit == Limit::OpenFiles || configured_requests(
            config,
        )[j].limit == Limit::CpuTime,
        configured_requests(config)[i].limit != Limit::CpuTime,
        configured_requests(config)[j].limit != Limit::OpenFiles,
{
}

/// Each limit is set at most once, and only to the configured value.
pub proof fn law_limits_are_set_once(config: SandboxConfig)
    ensures
        forall|i: int, j: int|
            0 <= i < j < configured_requests(config).len() ==> (
            #[trigger] configured_requests(config)[i]).limit != (
            #[trigger] configured_requests(config)[j]).limit,
        forall|i: int|
            #![trigger configured_requests(config)[i]]
            0 <= i < configured_requests(config).len() ==> configured_value(
                config,
                configured_requests(config)[i].limit,
            ) == Some(configured_requests(config)[i].value),
{
}

/// The memory limit and the number of processes, whatever they are, change
/// nothing about the limits that the child sets.
pub proof fn law_memory_and_processes_set_no_limit(config: SandboxConfig, other: SandboxConfig)
    requires
        other.max_open_files == config.max_open_files,
        other.max_file_size == config.max_file_size,
        other.cpu_time_limit == config.cpu_time_limit,
    ensures
        configured_requests(other) == configured_requests(config),
        config.max_open_files is None && config.max_file_size is None
            && config.cpu_time_limit is None ==> configured_requests(config).len() == 0,
{
}

} // verus!
