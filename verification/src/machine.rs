//! What a node tells the coordinator about itself.
use std::str::FromStr;
use std::sync::Arc;

use vstd::prelude::*;

use crate::memory::Memory;
use crate::os_release::{release_field, release_fields, slot_key};
use crate::packages::InstalledPackages;
use crate::text::{owned, str_eq};
use crate::uname;

verus! {

/// The characters of an optional string.
pub open spec fn opt_string_view(s: Option<String>) -> Option<Seq<char>> {
    match s {
        Some(v) => Some(v@),
        None => None,
    }
}

/// Identification of the operating system, from `os-release(5)`.
#[derive(Debug, Clone)]
pub struct OsRelease {
    pub name: String,
    pub id: String,
    pub pretty_name: String,
    pub version_id: Option<String>,
    pub version: Option<String>,
}

impl OsRelease {
    /// Reads the identification from the text of `os-release` and of
    /// `lsb-release`: for each key the first line that assigns it counts, and
    /// `os-release` is read before `lsb-release`. A missing `NAME` or
    /// `PRETTY_NAME` becomes `default_name`, a missing `ID` becomes `default_id`.
    pub fn from_release_texts(
        os_release: &str,
        lsb_release: &str,
        default_name: &str,
        default_id: &str,
    ) -> (r: OsRelease)
        ensures
            r.pretty_name@ == release_field(os_release@, lsb_release@, "PRETTY_NAME"@).unwrap_or(
                default_name@,
            ),
            r.name@ == release_field(os_release@, lsb_release@, "NAME"@).unwrap_or(default_name@),
            opt_string_view(r.version_id) == release_field(
                os_release@,
                lsb_release@,
                "VERSION_ID"@,
            ),
            opt_string_view(r.version) == release_field(os_release@, lsb_release@, "VERSION"@),
            r.id@ == release_field(os_release@, lsb_release@, "ID"@).unwrap_or(default_id@),
    {
        let mut slots = release_fields(os_release, lsb_release);
        let ghost s = slots@;
        assert(opt_string_view(s[0]) == release_field(os_release@, lsb_release@, slot_key(0)));
        assert(opt_string_view(s[1]) == release_field(os_release@, lsb_release@, slot_key(1)));
        assert(opt_string_view(s[2]) == release_field(os_release@, lsb_release@, slot_key(2)));
        assert(opt_string_view(s[3]) == release_field(os_release@, lsb_release@, slot_key(3)));
        assert(opt_string_view(s[4]) == release_field(os_release@, lsb_release@, slot_key(4)));
        let id = slots.pop().unwrap();
        let version = slots.pop().unwrap();
        let version_id = slots.pop().unwrap();
        let name = slots.pop().unwrap();
        let pretty_name = slots.pop().unwrap();
        OsRelease {
            name: match name {
                Some(v) => v,
                None => owned(default_name),
            },
            id: match id {
                Some(v) => v,
                None => owned(default_id),
            },
            pretty_name: match pretty_name {
                Some(v) => v,
                None => owned(default_name),
            },
            version_id,
            version,
        }
    }
}

/// Processor architecture.
#[derive(Debug, Clone, Copy, PartialEq, Eq, Structural)]
pub enum Arch {
    X86_64,
    Arm64,
}

/// The architecture a name stands for.
pub open spec fn arch_of(s: Seq<char>) -> Option<Arch> {
    if s == "x86_64"@ || s == "x64"@ {
        Some(Arch::X86_64)
    } else if s == "arm64"@ {
        Some(Arch::Arm64)
    } else {
        None
    }
}

/// The name does not stand for a known architecture.
#[derive(Debug, Clone, Copy, PartialEq, Eq, Structural)]
pub struct ArchParseErr;

impl ArchParseErr {
    /// The message that describes this error.
    pub fn message(&self) -> (s: &'static str)
        ensures
            s@ == "invalid architecture"@,
    {
        "invalid architecture"
    }
}

impl Arch {
    /// Reads an architecture name: `x86_64` or `x64`, or `arm64`.
    pub fn parse(s: &str) -> (r: Result<Arch, ArchParseErr>)
        ensures
            match r {
                Ok(a) => arch_of(s@) == Some(a),
                Err(_) => arch_of(s@) is None,
            },
    {
        if str_eq(s, "x86_64") || str_eq(s, "x64") {
            Ok(Arch::X86_64)
        } else if str_eq(s, "arm64") {
            Ok(Arch::Arm64)
        } else {
            Err(ArchParseErr)
        }
    }
}

impl FromStr for Arch {
    type Err = ArchParseErr;

    fn from_str(s: &str) -> (r: Result<Arch, ArchParseErr>)
        ensures
            match r {
                Ok(a) => arch_of(s@) == Some(a),
                Err(_) => arch_of(s@) is None,
            },
    {
        Arch::parse(s)
    }
}

/// Kernel identification of a node, as `uname(1)` reports it.
#[derive(Debug, Clone)]
pub struct Uname {
    pub name: String,
    pub machine: Arch,
    pub release: String,
    pub version: String,
    pub nodename: String,
}

impl Uname {
    /// The identification of a node from its `uname(2)` report; fails when
    /// the machine field names no known architecture.
    pub fn try_from_raw(value: &uname::Uname) -> (r: Result<Uname, ArchParseErr>)
        ensures
            match r {
                Ok(u) => {
                    &&& arch_of(value@.machine) == Some(u.machine)
                    &&& u.name@ == value@.sysname
                    &&& u.release@ == value@.release
                    &&& u.version@ == value@.version
                    &&& u.nodename@ == value@.nodename
                },
                Err(_) => arch_of(value@.machine) is None,
            },
    {
        let machine = Arch::parse(value.machine())?;
        Ok(
            Uname {
                name: owned(value.sysname()),
                machine,
                release: owned(value.release()),
                version: owned(value.version()),
                nodename: owned(value.nodename()),
            },
        )
    }
}

/// The sum of a sequence of counts.
pub open spec fn seq_sum(s: Seq<u64>) -> nat
    decreases s.len(),
{
    if s.len() == 0 {
        0
    } else {
        (seq_sum(s.drop_last()) + s.last()) as nat
    }
}

/// Status message used for heartbeats and basic usage data.
#[derive(Debug, Clone, Copy)]
pub struct MachineStatus {
    pub mem_used: Memory,
    /// available cpu as measured tentatively by thread*milliseconds
    pub avg_avail_cpu: u64,
}

impl Default for MachineStatus {
    fn default() -> (s: MachineStatus)
        ensures
            s.mem_used@ == 0,
            s.avg_avail_cpu == 0,
    {
        MachineStatus { mem_used: Memory::from_bytes(0), avg_avail_cpu: 0 }
    }
}

impl MachineStatus {
    /// The status from the memory in use and the available capacity of each
    /// processor, in thousandths.
    pub fn from_readings(used_memory: u64, cpu_avail: &Vec<u64>) -> (s: MachineStatus)
        requires
            seq_sum(cpu_avail@) <= u64::MAX,
        ensures
            s.mem_used@ == used_memory,
            s.avg_avail_cpu == seq_sum(cpu_avail@),
    {
        let mut sum: u64 = 0;
        let mut i: usize = 0;
        while i < cpu_avail.len()
            invariant
                i <= cpu_avail@.len(),
                sum == seq_sum(cpu_avail@.subrange(0, i as int)),
                seq_sum(cpu_avail@) <= u64::MAX,
            decreases cpu_avail.len() - i,
        {
            proof {
                lemma_seq_sum_prefix(cpu_avail@, i as int + 1);
                assert(cpu_avail@.subrange(0, i + 1).drop_last() =~= cpu_avail@.subrange(
                    0,
                    i as int,
                ));
            }
            sum = sum + cpu_avail[i];
            i = i + 1;
        }
        assert(cpu_avail@.subrange(0, i as int) =~= cpu_avail@);
        MachineStatus { mem_used: Memory::from_bytes(used_memory), avg_avail_cpu: sum }
    }
}

/// A prefix sums to no more than the whole.
pub proof fn lemma_seq_sum_prefix(s: Seq<u64>, k: int)
    requires
        0 <= k <= s.len(),
    ensures
        seq_sum(s.subrange(0, k)) <= seq_sum(s),
    decreases s.len() - k,
{
    if k < s.len() {
        lemma_seq_sum_prefix(s, k + 1);
        assert(s.subrange(0, k + 1).drop_last() =~= s.subrange(0, k));
    } else {
        assert(s.subrange(0, k) =~= s);
    }
}

/// The number of threads, capped at what a `u16` holds.
pub fn thread_count(n: usize) -> (t: u16)
    ensures
        t == (if n <= u16::MAX {
            n as u16
        } else {
            u16::MAX
        }),
{
    if n <= u16::MAX as usize {
        n as u16
    } else {
        u16::MAX
    }
}

/// Nanoseconds between refreshes of the machine status.
pub const STATUS_REFRESH_NANOS: u128 = 10_000_000_000;

/// Whether the status is due for a refresh, `elapsed` nanoseconds after the last one.
pub fn status_refresh_due(elapsed: u128) -> (r: bool)
    ensures
        r == (elapsed >= STATUS_REFRESH_NANOS),
{
    elapsed >= STATUS_REFRESH_NANOS
}

/// Whether something must, may, or must not be there.
#[derive(Debug, Clone, Copy, PartialEq, Eq, Structural)]
pub enum Requirement {
    Require,
    Allow,
    Forbid,
}

impl Requirement {
    /// Whether `there` meets the requirement.
    pub fn check(self, there: bool) -> (r: bool)
        ensures
            r == match self {
                Requirement::Require => there,
                Requirement::Allow => true,
                Requirement::Forbid => !there,
            },
    {
        match self {
            Requirement::Require => there,
            Requirement::Allow => true,
            Requirement::Forbid => !there,
        }
    }
}

/// Machine description message.
pub struct MachineDesc {
    pub packages: Arc<InstalledPackages>,
    pub os: OsRelease,
    pub uname: Uname,
    pub ram: Memory,
    pub swap: Memory,
    pub threads: u16,
}

} // verus!
