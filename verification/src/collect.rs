//! Interpretation of what Linux, `findmnt`, `df`, `systemctl` and Restic
//! report. Reading files and running commands is the caller's job; these
//! functions turn the text they produce into Albert's status.
use vstd::prelude::*;
use crate::status::{DiskAvailability, DiskStatus, PiStatus};
use crate::text::{
    chars_of, fields, lines, parse_i32, parse_i32_spec, parse_u16, parse_u64, parse_unsigned,
    same_as_str, same_chars, split_fields, split_lines, trim, trimmed,
};

verus! {

/// The age, in hours, after which a backup is stale.
pub const BACKUP_STALE_HOURS: i64 = 48;

/// Uptime split into days, hours and minutes.
#[derive(Clone, Copy, Debug, PartialEq, Eq)]
pub struct Uptime {
    pub days: u64,
    pub hours: u64,
    pub minutes: u64,
}

/// Used and total memory, in MiB.
#[derive(Clone, Copy, Debug, PartialEq, Eq)]
pub struct MemoryUsage {
    pub used: u64,
    pub total: u64,
}

/// The cheap readings refreshed every second.
#[derive(Clone, Copy, Debug, PartialEq, Eq)]
pub struct CheapTelemetry {
    pub temperature: Option<i32>,
    pub uptime: Option<Uptime>,
    pub memory: Option<MemoryUsage>,
}

/// The state of the Copyparty user service.
#[derive(Clone, Copy, Debug, PartialEq, Eq)]
pub enum CpStatus {
    Running,
    Stopped,
    Failed,
    Unknown,
}

/// The freshness of the latest Restic snapshot.
#[derive(Clone, Copy, Debug, PartialEq, Eq)]
pub enum BackupStatus {
    Checking,
    Current { age_hours: i64 },
    Stale { age_hours: i64 },
    Unavailable,
}

/// The eight aggregate CPU counters of `/proc/stat`.
#[derive(Clone, Copy, Debug, PartialEq, Eq)]
pub struct CpuSample(pub [u64; 8]);

/// The sectors read and written, from `/proc/diskstats`.
#[derive(Clone, Copy, Debug, PartialEq, Eq)]
pub struct DiskSample {
    pub read: u64,
    pub written: u64,
}

/// CPU work between two samples: busy ticks out of all ticks.
#[derive(Clone, Copy, Debug, PartialEq, Eq)]
pub struct CpuCounts {
    pub busy: u64,
    pub total: u64,
}

/// Disk work between two samples, over `elapsed_ns` nanoseconds.
#[derive(Clone, Copy, Debug, PartialEq, Eq)]
pub struct DiskCounts {
    pub read_sectors: u64,
    pub written_sectors: u64,
    pub elapsed_ns: u64,
}

/// The activity between the previous observation and this one; unknown
/// for a first sample, a counter reset or no elapsed time.
#[derive(Clone, Copy, Debug, PartialEq, Eq)]
pub struct ActivityCounts {
    pub cpu: Option<CpuCounts>,
    pub disk: Option<DiskCounts>,
}

/// The collector's memory, as the specifications see it.
pub struct CollectorState {
    pub previous_cpu: Option<CpuSample>,
    pub previous_disk: Option<(DiskSample, u64)>,
}

/// Remembers the previous CPU and disk samples (the disk one with its
/// monotonic time in nanoseconds).
pub struct ActivityCollector {
    previous_cpu: Option<CpuSample>,
    previous_disk: Option<(DiskSample, u64)>,
}

impl View for ActivityCollector {
    type V = CollectorState;

    closed spec fn view(&self) -> CollectorState {
        CollectorState { previous_cpu: self.previous_cpu, previous_disk: self.previous_disk }
    }
}

// ---------------------------------------------------------------------------
// Specification
// ---------------------------------------------------------------------------

/// Whether `s` begins with `p`.
pub open spec fn starts_with(s: Seq<char>, p: Seq<char>) -> bool {
    p.len() <= s.len() && s.take(p.len() as int) == p
}

/// The first of `ls` that begins with `prefix`.
pub open spec fn first_with_prefix(ls: Seq<Seq<char>>, prefix: Seq<char>) -> Option<Seq<char>>
    decreases ls.len(),
{
    if ls.len() == 0 {
        None
    } else if starts_with(ls[0], prefix) {
        Some(ls[0])
    } else {
        first_with_prefix(ls.drop_first(), prefix)
    }
}

/// `s` without all its trailing `c`s (`str::trim_end_matches`).
pub open spec fn trim_end_char(s: Seq<char>, c: char) -> Seq<char>
    decreases s.len(),
{
    if s.len() > 0 && s.last() == c {
        trim_end_char(s.drop_last(), c)
    } else {
        s
    }
}

/// A `df -BG` size such as `831G`, as gibibytes.
pub open spec fn gib_field(f: Seq<char>) -> Option<u16> {
    match parse_unsigned(trim_end_char(f, 'G'), u16::MAX as nat) {
        Some(n) => Some(n as u16),
        None => None,
    }
}

/// The total and available gibibytes in the second line of `df -BG`
/// output; both unknown when the line or its fields are missing.
pub open spec fn df_capacity_spec(stdout: Seq<char>) -> (Option<u16>, Option<u16>) {
    let ls = lines(stdout);
    if ls.len() < 2 {
        (None, None)
    } else {
        let f = fields(ls[1]);
        if f.len() < 4 {
            (None, None)
        } else {
            (gib_field(f[1]), gib_field(f[3]))
        }
    }
}

/// The second field of the first line beginning with `name`, as a number.
pub open spec fn meminfo_value(text: Seq<char>, name: Seq<char>) -> Option<nat> {
    match first_with_prefix(lines(text), name) {
        None => None,
        Some(l) => {
            let f = fields(l);
            if f.len() > 1 {
                parse_unsigned(f[1], u64::MAX as nat)
            } else {
                None
            }
        },
    }
}

/// Memory use from `/proc/meminfo`: used is total minus available; both
/// in MiB. Unknown when a value is missing or available exceeds total.
pub open spec fn memory_spec(text: Seq<char>) -> Option<MemoryUsage> {
    match (meminfo_value(text, "MemTotal:"@), meminfo_value(text, "MemAvailable:"@)) {
        (Some(t), Some(a)) => if a <= t {
            Some(MemoryUsage { used: ((t - a) / 1024) as u64, total: (t / 1024) as u64 })
        } else {
            None
        },
        _ => None,
    }
}

/// Division that rounds toward zero, as Rust's `/` on integers.
pub open spec fn div_toward_zero(v: int, d: int) -> int {
    if v >= 0 {
        v / d
    } else {
        -((-v) / d)
    }
}

/// Degrees Celsius from the millidegrees in a thermal-zone file.
pub open spec fn temperature_spec(text: Seq<char>) -> Option<i32> {
    match parse_i32_spec(trim(text)) {
        Some(v) => Some(div_toward_zero(v, 1000) as i32),
        None => None,
    }
}

/// The Copyparty state from `systemctl is-active`.
pub open spec fn copyparty_spec(stdout: Option<Seq<char>>) -> CpStatus {
    match stdout {
        None => CpStatus::Unknown,
        Some(o) => {
            let t = trim(o);
            if t == "active"@ {
                CpStatus::Running
            } else if t == "inactive"@ {
                CpStatus::Stopped
            } else if t == "failed"@ {
                CpStatus::Failed
            } else {
                CpStatus::Unknown
            }
        },
    }
}

/// Whether the fields `1..=8` of `f` are all numbers.
pub open spec fn cpu_fields_ok(f: Seq<Seq<char>>) -> bool {
    f.len() >= 9 && forall|k: int| 1 <= k <= 8 ==> (#[trigger] parse_unsigned(f[k], u64::MAX as nat)) is Some
}

/// The aggregate CPU counters: the eight numbers after `cpu` on the first
/// line that begins with `cpu `.
pub open spec fn cpu_sample_spec(text: Seq<char>) -> Option<Seq<u64>> {
    match first_with_prefix(lines(text), "cpu "@) {
        None => None,
        Some(l) => {
            let f = fields(l);
            if cpu_fields_ok(f) {
                Some(Seq::new(8, |k: int| parse_unsigned(f[k + 1], u64::MAX as nat)->0 as u64))
            } else {
                None
            }
        },
    }
}

/// The fields of the first line whose third field is `device`.
pub open spec fn device_fields(ls: Seq<Seq<char>>, device: Seq<char>) -> Option<Seq<Seq<char>>>
    decreases ls.len(),
{
    if ls.len() == 0 {
        None
    } else if fields(ls[0]).len() > 2 && fields(ls[0])[2] == device {
        Some(fields(ls[0]))
    } else {
        device_fields(ls.drop_first(), device)
    }
}

/// The sectors read (sixth field) and written (tenth field) for `device`
/// in `/proc/diskstats`.
pub open spec fn disk_sample_spec(text: Seq<char>, device: Seq<char>) -> Option<DiskSample> {
    match device_fields(lines(text), device) {
        None => None,
        Some(f) => if f.len() > 9 && parse_unsigned(f[5], u64::MAX as nat) is Some
            && parse_unsigned(f[9], u64::MAX as nat) is Some {
            Some(
                DiskSample {
                    read: parse_unsigned(f[5], u64::MAX as nat)->0 as u64,
                    written: parse_unsigned(f[9], u64::MAX as nat)->0 as u64,
                },
            )
        } else {
            None
        },
    }
}

/// The sum of the first `n` counter deltas.
pub open spec fn delta_sum(previous: Seq<u64>, current: Seq<u64>, n: nat) -> int
    decreases n,
{
    if n == 0 {
        0
    } else {
        delta_sum(previous, current, (n - 1) as nat) + current[n - 1] - previous[n - 1]
    }
}

/// CPU work between two samples: all ticks, and the busy ones (all but
/// idle and I/O wait, the fourth and fifth counters). Unknown when a
/// counter went back, the total does not fit, or no time passed.
pub open spec fn cpu_counts_spec(previous: Seq<u64>, current: Seq<u64>) -> Option<CpuCounts> {
    let total = delta_sum(previous, current, 8);
    if (forall|k: int| 0 <= k < 8 ==> previous[k] <= current[k]) && 0 < total <= u64::MAX {
        Some(
            CpuCounts {
                busy: (total - (current[3] - previous[3]) - (current[4] - previous[4])) as u64,
                total: total as u64,
            },
        )
    } else {
        None
    }
}

/// The ticks that counter `k` gained between two samples.
pub open spec fn ticks(previous: Seq<u64>, current: Seq<u64>, k: int) -> int {
    current[k] - previous[k]
}

/// What CPU usage counts: it is known exactly when no counter went back and
/// some time passed (within `u64`); the total is the ticks gained by all
/// eight counters, and the busy part is the ticks of every counter but idle and
/// I/O wait (the fourth and fifth) — user, nice, system, irq, softirq and
/// steal time all count as busy.
pub proof fn lemma_cpu_busy_is_all_but_idle(previous: Seq<u64>, current: Seq<u64>)
    ensures
        cpu_counts_spec(previous, current) matches Some(counts) ==> counts.total == ticks(
            previous,
            current,
            0,
        ) + ticks(previous, current, 1) + ticks(previous, current, 2) + ticks(
            previous,
            current,
            3,
        ) + ticks(previous, current, 4) + ticks(previous, current, 5) + ticks(
            previous,
            current,
            6,
        ) + ticks(previous, current, 7),
        cpu_counts_spec(previous, current) matches Some(counts) ==> counts.busy == ticks(
            previous,
            current,
            0,
        ) + ticks(previous, current, 1) + ticks(previous, current, 2) + ticks(
            previous,
            current,
            5,
        ) + ticks(previous, current, 6) + ticks(previous, current, 7),
        cpu_counts_spec(previous, current) is Some <==> (forall|k: int|
            0 <= k < 8 ==> #[trigger] ticks(previous, current, k) >= 0) && 0 < ticks(
            previous,
            current,
            0,
        ) + ticks(previous, current, 1) + ticks(previous, current, 2) + ticks(
            previous,
            current,
            3,
        ) + ticks(previous, current, 4) + ticks(previous, current, 5) + ticks(
            previous,
            current,
            6,
        ) + ticks(previous, current, 7) <= u64::MAX,
{
    reveal_with_fuel(delta_sum, 9);
}

/// Disk work between two samples; unknown when a counter went back or no
/// time passed.
pub open spec fn disk_counts_spec(
    previous: DiskSample,
    current: DiskSample,
    elapsed_ns: u64,
) -> Option<DiskCounts> {
    if elapsed_ns > 0 && previous.read <= current.read && previous.written <= current.written {
        Some(
            DiskCounts {
                read_sectors: (current.read - previous.read) as u64,
                written_sectors: (current.written - previous.written) as u64,
                elapsed_ns,
            },
        )
    } else {
        None
    }
}

/// The activity an observation reports.
pub open spec fn observe_counts(
    s: CollectorState,
    cpu: Option<CpuSample>,
    disk: Option<DiskSample>,
    now_ns: u64,
) -> ActivityCounts {
    ActivityCounts {
        cpu: match (s.previous_cpu, cpu) {
            (Some(p), Some(c)) => cpu_counts_spec(p.0@, c.0@),
            _ => None,
        },
        disk: match (s.previous_disk, disk) {
            (Some((p, t)), Some(c)) => disk_counts_spec(
                p,
                c,
                if now_ns >= t {
                    (now_ns - t) as u64
                } else {
                    0
                },
            ),
            _ => None,
        },
    }
}

/// What the collector remembers after an observation: the new samples.
pub open spec fn observe_state(
    cpu: Option<CpuSample>,
    disk: Option<DiskSample>,
    now_ns: u64,
) -> CollectorState {
    CollectorState {
        previous_cpu: cpu,
        previous_disk: match disk {
            Some(d) => Some((d, now_ns)),
            None => None,
        },
    }
}

/// The freshness for a snapshot of the given age: stale after
/// `BACKUP_STALE_HOURS` hours.
pub open spec fn backup_for_age(age_hours: i64) -> BackupStatus {
    if age_hours > BACKUP_STALE_HOURS {
        BackupStatus::Stale { age_hours }
    } else {
        BackupStatus::Current { age_hours }
    }
}

/// The `time` string of the first element of the JSON array that
/// `restic snapshots --json` printed, if the bytes are JSON of that shape.
pub uninterp spec fn snapshot_time_of(stdout: Seq<u8>) -> Option<Seq<char>>;

/// The instant that `chrono` reads from an RFC 3339 date and time, as
/// seconds since 1970 (UTC) and nanoseconds within the second, if it
/// accepts the text.
pub uninterp spec fn rfc3339_instant(text: Seq<char>) -> Option<(i64, u32)>;

/// The whole seconds, rounded toward zero, from the instant `earlier` to
/// the instant `later` (each as seconds since 1970 and nanoseconds), as
/// `chrono` computes them; none when `chrono` cannot represent an instant.
pub uninterp spec fn seconds_between(later: (i64, u32), earlier: (i64, u32)) -> Option<i64>;

/// An instant given as seconds since 1970 and nanoseconds that `chrono`
/// always represents: no leap-second nanoseconds, and within about 250,000
/// years of 1970 (well inside `chrono`'s range of dates).
pub open spec fn ordinary_instant(i: (i64, u32)) -> bool {
    -8_000_000_000_000 <= i.0 <= 8_000_000_000_000 && i.1 < 1_000_000_000
}

/// An instant in nanoseconds since 1970.
pub open spec fn instant_nanos(i: (i64, u32)) -> int {
    i.0 as int * 1_000_000_000 + i.1 as int
}

/// The whole seconds from `earlier` to `later`, rounded toward zero.
pub open spec fn whole_seconds(later: (i64, u32), earlier: (i64, u32)) -> int {
    div_toward_zero(instant_nanos(later) - instant_nanos(earlier), 1_000_000_000)
}

// ---------------------------------------------------------------------------
// Outside calls
// ---------------------------------------------------------------------------

/// `serde_json::from_slice::<serde_json::Value>`, then `Value::get(0)`,
/// `Value::get("time")` and `Value::as_str`: the result depends on the bytes
/// alone and is named `snapshot_time_of`; JSON parsing itself is not
/// restated.
#[verifier::external_body]
fn latest_snapshot_time(stdout: &[u8]) -> (r: Option<String>)
    ensures
        match r {
            Some(t) => snapshot_time_of(stdout@) == Some(t@),
            None => snapshot_time_of(stdout@) is None,
        },
{
    let parsed: serde_json::Value = serde_json::from_slice(stdout).ok()?;
    parsed.get(0)?.get("time")?.as_str().map(String::from)
}

/// `chrono::DateTime::parse_from_rfc3339`, read back as `timestamp` and
/// `timestamp_subsec_nanos`: depends on the text alone and is named
/// `rfc3339_instant`.
#[verifier::external_body]
fn parse_instant(text: &str) -> (r: Option<(i64, u32)>)
    ensures
        r == rfc3339_instant(text@),
{
    chrono::DateTime::parse_from_rfc3339(text).ok().map(
        |t| (t.timestamp(), t.timestamp_subsec_nanos()),
    )
}

/// `chrono::Utc::now()` as seconds since 1970 and nanoseconds: a clock
/// reading. chrono builds it from the system time since 1970 (it panics on
/// an earlier clock) and that time's sub-second nanoseconds, so the seconds
/// are not negative and the nanoseconds stay below one second; which
/// instant comes back is not claimed.
#[verifier::external_body]
fn utc_now() -> (r: (i64, u32))
    ensures
        r.0 >= 0,
        r.1 < 1_000_000_000,
{
    let now = chrono::Utc::now();
    (now.timestamp(), now.timestamp_subsec_nanos())
}

/// `chrono::DateTime::from_timestamp` for both instants, their difference
/// (`Sub`) and `TimeDelta::num_seconds`: depends on the instants alone and
/// is named `seconds_between`. For ordinary instants `from_timestamp`
/// succeeds, the difference is exact and `num_seconds` rounds it toward
/// zero; for leap-second nanoseconds or dates near the ends of chrono's
/// range only the name is claimed.
#[verifier::external_body]
fn elapsed_seconds(later: (i64, u32), earlier: (i64, u32)) -> (r: Option<i64>)
    ensures
        r == seconds_between(later, earlier),
        ordinary_instant(later) && ordinary_instant(earlier) ==> r == Some(
            whole_seconds(later, earlier) as i64,
        ),
{
    let later = chrono::DateTime::from_timestamp(later.0, later.1)?;
    let earlier = chrono::DateTime::from_timestamp(earlier.0, earlier.1)?;
    Some((later - earlier).num_seconds())
}

// ---------------------------------------------------------------------------
// Line and field helpers
// ---------------------------------------------------------------------------

fn starts_with_str(s: &Vec<char>, p: &str) -> (r: bool)
    ensures
        r == starts_with(s@, p@),
{
    let pv = chars_of(p);
    if pv.len() > s.len() {
        return false;
    }
    let mut i: usize = 0;
    while i < pv.len()
        invariant
            pv@ == p@,
            pv.len() <= s.len(),
            i <= pv.len(),
            forall|j: int| 0 <= j < i ==> s@[j] == pv@[j],
        decreases pv.len() - i,
    {
        if s[i] != pv[i] {
            assert(s@.take(pv.len() as int)[i as int] != pv@[i as int]);
            return false;
        }
        i = i + 1;
    }
    assert(s@.take(pv.len() as int) =~= pv@);
    true
}

/// The index of the first line that begins with `prefix`.
fn find_prefixed(ls: &Vec<Vec<char>>, prefix: &str) -> (r: Option<usize>)
    ensures
        match r {
            Some(i) => i < ls.len() && first_with_prefix(ls.deep_view(), prefix@) == Some(
                ls.deep_view()[i as int],
            ),
            None => first_with_prefix(ls.deep_view(), prefix@) is None,
        },
{
    let ghost dv = ls.deep_view();
    let mut i: usize = 0;
    assert(dv.skip(0) =~= dv);
    while i < ls.len()
        invariant
            dv == ls.deep_view(),
            i <= ls.len(),
            first_with_prefix(dv, prefix@) == first_with_prefix(dv.skip(i as int), prefix@),
        decreases ls.len() - i,
    {
        assert(dv.skip(i as int)[0] == dv[i as int]);
        assert(dv[i as int] == ls@[i as int]@);
        if starts_with_str(&ls[i], prefix) {
            return Some(i);
        }
        assert(dv.skip(i as int).drop_first() =~= dv.skip(i + 1));
        i = i + 1;
    }
    assert(dv.skip(i as int) =~= Seq::<Seq<char>>::empty());
    None
}

proof fn lemma_trim_end_char(s: Seq<char>, c: char, k: int)
    requires
        0 <= k <= s.len(),
        forall|j: int| k <= j < s.len() ==> s[j] == c,
    ensures
        trim_end_char(s, c) == trim_end_char(s.take(k), c),
    decreases s.len() - k,
{
    if k < s.len() {
        assert(s.drop_last().take(k) =~= s.take(k));
        lemma_trim_end_char(s.drop_last(), c, k);
    } else {
        assert(s.take(k) =~= s);
    }
}

/// A `df -BG` size in gibibytes.
fn gib(f: &Vec<char>) -> (r: Option<u16>)
    ensures
        r == gib_field(f@),
{
    let mut end: usize = f.len();
    while end > 0 && f[end - 1] == 'G'
        invariant
            end <= f.len(),
            forall|j: int| end <= j < f.len() ==> f@[j] == 'G',
        decreases end,
    {
        end = end - 1;
    }
    let mut digits: Vec<char> = Vec::new();
    let mut i: usize = 0;
    while i < end
        invariant
            i <= end <= f.len(),
            digits@ == f@.take(i as int),
        decreases end - i,
    {
        digits.push(f[i]);
        i = i + 1;
    }
    proof {
        lemma_trim_end_char(f@, 'G', end as int);
    }
    assert(trim_end_char(f@, 'G') == digits@);
    parse_u16(&digits)
}

// ---------------------------------------------------------------------------
// Disks
// ---------------------------------------------------------------------------

/// The filesystem UUID in a `/dev/disk/by-uuid/` path.
pub fn uuid_from_path(uid_path: &str) -> (r: Option<Vec<char>>)
    ensures
        match r {
            Some(u) => starts_with(uid_path@, "/dev/disk/by-uuid/"@) && u@ == uid_path@.skip(
                "/dev/disk/by-uuid/"@.len() as int,
            ),
            None => !starts_with(uid_path@, "/dev/disk/by-uuid/"@),
        },
{
    let path = chars_of(uid_path);
    let prefix = chars_of("/dev/disk/by-uuid/");
    if !starts_with_str(&path, "/dev/disk/by-uuid/") {
        return None;
    }
    let mut u: Vec<char> = Vec::new();
    let mut i: usize = prefix.len();
    while i < path.len()
        invariant
            prefix.len() <= i <= path.len(),
            u@ == path@.subrange(prefix.len() as int, i as int),
        decreases path.len() - i,
    {
        u.push(path[i]);
        i = i + 1;
    }
    Some(u)
}

/// Whether the disk is mounted, from the UUID that `findmnt` reports for the
/// mount point: unknown when `findmnt` could not run, mounted when the
/// trimmed output is the expected UUID, unmounted otherwise.
pub fn mount_state(findmnt_stdout: Option<String>, uuid: &Vec<char>) -> (r: DiskAvailability)
    ensures
        r == match findmnt_stdout {
            None => DiskAvailability::Unknown,
            Some(o) => if trim(o@) == uuid@ {
                DiskAvailability::Mounted
            } else {
                DiskAvailability::Unmounted
            },
        },
{
    match &findmnt_stdout {
        None => DiskAvailability::Unknown,
        Some(o) => {
            let found = trimmed(&chars_of(o.as_str()));
            if same_chars(&found, uuid) {
                DiskAvailability::Mounted
            } else {
                DiskAvailability::Unmounted
            }
        },
    }
}

/// Whether a disk is there and mounted: missing when its identity path
/// does not exist, otherwise as `findmnt` reports it for the mount point.
pub fn disk_availability(uid_exists: bool, findmnt_stdout: Option<String>, uuid: &Vec<char>) -> (r:
    DiskAvailability)
    ensures
        r == if !uid_exists {
            DiskAvailability::Missing
        } else {
            match findmnt_stdout {
                None => DiskAvailability::Unknown,
                Some(o) => if trim(o@) == uuid@ {
                    DiskAvailability::Mounted
                } else {
                    DiskAvailability::Unmounted
                },
            }
        },
{
    if !uid_exists {
        DiskAvailability::Missing
    } else {
        mount_state(findmnt_stdout, uuid)
    }
}

/// The total and available gibibytes in `df -BG` output.
pub fn df_capacity(stdout: &str) -> (r: (Option<u16>, Option<u16>))
    ensures
        r == df_capacity_spec(stdout@),
{
    let ls = split_lines(&chars_of(stdout));
    if ls.len() < 2 {
        return (None, None);
    }
    assert(ls.deep_view()[1] == ls@[1]@);
    let f = split_fields(&ls[1]);
    if f.len() < 4 {
        return (None, None);
    }
    assert(f.deep_view()[1] == f@[1]@);
    assert(f.deep_view()[3] == f@[3]@);
    (gib(&f[1]), gib(&f[3]))
}

/// The status of a disk: its capacity is read from `df` output only when it
/// is mounted; temperature and health are not known here.
pub fn disk_status_from(availability: DiskAvailability, df_stdout: Option<String>) -> (r: DiskStatus)
    ensures
        r.availability == availability,
        r.temperature_c is None,
        r.health is None,
        (r.total_gib, r.available_gib) == match (availability, df_stdout) {
            (DiskAvailability::Mounted, Some(o)) => df_capacity_spec(o@),
            _ => (None, None),
        },
{
    let (total_gib, available_gib) = match (availability, &df_stdout) {
        (DiskAvailability::Mounted, Some(o)) => df_capacity(o.as_str()),
        _ => (None, None),
    };
    DiskStatus { availability, temperature_c: None, available_gib, total_gib, health: None }
}

/// The Pi's temperature in whole degrees from the thermal-zone text, when
/// it reads and fits in a byte.
pub open spec fn pi_temperature_spec(thermal: Option<Seq<char>>) -> Option<u8> {
    match thermal {
        None => None,
        Some(t) => match temperature_spec(t) {
            Some(c) => if 0 <= c <= 255 {
                Some(c as u8)
            } else {
                None
            },
            None => None,
        },
    }
}

/// The share of memory in use, in whole percent, from `/proc/meminfo`.
pub open spec fn ram_percent_spec(meminfo: Option<Seq<char>>) -> Option<u8> {
    match meminfo {
        None => None,
        Some(m) => match memory_spec(m) {
            Some(u) => if u.total > 0 {
                Some((u.used * 100 / (u.total as int)) as u8)
            } else {
                None
            },
            None => None,
        },
    }
}

/// The Pi's status from the thermal-zone and `/proc/meminfo` texts (none
/// where a file could not be read).
pub fn collect_pi_status(thermal: Option<String>, meminfo: Option<String>) -> (r: PiStatus)
    ensures
        r.temperature_c == pi_temperature_spec(
            match thermal {
                Some(t) => Some(t@),
                None => None,
            },
        ),
        r.ram_percent == ram_percent_spec(
            match meminfo {
                Some(m) => Some(m@),
                None => None,
            },
        ),
{
    let temperature_c = match &thermal {
        None => None,
        Some(t) => match temperature_from(t.as_str()) {
            Some(c) => if 0 <= c && c <= 255 {
                Some(c as u8)
            } else {
                None
            },
            None => None,
        },
    };
    let ram_percent = match &meminfo {
        None => None,
        Some(m) => match memory_from_meminfo(m.as_str()) {
            Some(u) => if u.total > 0 {
                proof {
                    lemma_percent_fits(u.used, u.total);
                }
                Some((u.used * 100 / u.total) as u8)
            } else {
                None
            },
            None => None,
        },
    };
    PiStatus { temperature_c, ram_percent }
}

proof fn lemma_percent_fits(used: u64, total: u64)
    requires
        0 < total,
        used <= total,
        total <= u64::MAX / 1024,
    ensures
        used * 100 <= u64::MAX,
        used * 100 / (total as int) <= 100,
{
    assert(used * 100 / (total as int) <= 100) by (nonlinear_arith)
        requires
            0 < total,
            used <= total,
    ;
}

// ---------------------------------------------------------------------------
// Cheap telemetry
// ---------------------------------------------------------------------------

/// Degrees Celsius from a thermal-zone file holding millidegrees.
pub fn temperature_from(text: &str) -> (r: Option<i32>)
    ensures
        r == temperature_spec(text@),
{
    let t = trimmed(&chars_of(text));
    match parse_i32(&t) {
        Some(v) => {
            let w: i64 = v as i64;
            let c: i64 = if w >= 0 {
                w / 1000
            } else {
                -((-w) / 1000)
            };
            Some(c as i32)
        },
        None => None,
    }
}

/// Whole seconds of uptime as days, hours and minutes.
pub fn uptime_from_seconds(seconds: u64) -> (r: Uptime)
    ensures
        r.days == seconds / 86_400,
        r.hours == (seconds % 86_400) / 3_600,
        r.minutes == (seconds % 3_600) / 60,
{
    Uptime {
        days: seconds / 86_400,
        hours: (seconds % 86_400) / 3_600,
        minutes: (seconds % 3_600) / 60,
    }
}

fn meminfo_field(ls: &Vec<Vec<char>>, name: &str) -> (r: Option<u64>)
    ensures
        match (r, match first_with_prefix(ls.deep_view(), name@) {
            None => None,
            Some(l) => {
                let f = fields(l);
                if f.len() > 1 {
                    parse_unsigned(f[1], u64::MAX as nat)
                } else {
                    None
                }
            },
        }) {
            (Some(a), Some(b)) => a == b,
            (None, None) => true,
            _ => false,
        },
{
    match find_prefixed(ls, name) {
        None => None,
        Some(i) => {
            assert(ls.deep_view()[i as int] == ls@[i as int]@);
            let f = split_fields(&ls[i]);
            if f.len() > 1 {
                assert(f.deep_view()[1] == f@[1]@);
                parse_u64(&f[1])
            } else {
                None
            }
        },
    }
}

/// Used and total memory from `/proc/meminfo`.
pub fn memory_from_meminfo(text: &str) -> (r: Option<MemoryUsage>)
    ensures
        r == memory_spec(text@),
{
    let ls = split_lines(&chars_of(text));
    let total = match meminfo_field(&ls, "MemTotal:") {
        Some(t) => t,
        None => return None,
    };
    let available = match meminfo_field(&ls, "MemAvailable:") {
        Some(a) => a,
        None => return None,
    };
    if available > total {
        return None;
    }
    Some(MemoryUsage { used: (total - available) / 1024, total: total / 1024 })
}

/// The Copyparty state from `systemctl --user is-active copyparty` output,
/// or unknown when the command could not run.
pub fn copyparty_status(stdout: Option<String>) -> (r: CpStatus)
    ensures
        r == copyparty_spec(
            match stdout {
                Some(o) => Some(o@),
                None => None,
            },
        ),
{
    match &stdout {
        None => CpStatus::Unknown,
        Some(o) => {
            let t = trimmed(&chars_of(o.as_str()));
            if same_as_str(&t, "active") {
                CpStatus::Running
            } else if same_as_str(&t, "inactive") {
                CpStatus::Stopped
            } else if same_as_str(&t, "failed") {
                CpStatus::Failed
            } else {
                CpStatus::Unknown
            }
        },
    }
}

// ---------------------------------------------------------------------------
// Backups
// ---------------------------------------------------------------------------

/// The freshness of a snapshot `age_hours` old.
pub fn backup_status_for_age(age_hours: i64) -> (r: BackupStatus)
    ensures
        r == backup_for_age(age_hours),
{
    if age_hours > BACKUP_STALE_HOURS {
        BackupStatus::Stale { age_hours }
    } else {
        BackupStatus::Current { age_hours }
    }
}

/// The age in seconds of the latest snapshot at the instant `now`, from the
/// output of `restic snapshots --latest 1 --json`: none when the command
/// failed, the output holds no snapshot time, the time is not RFC 3339 or
/// the difference cannot be computed.
pub open spec fn snapshot_age_spec(success: bool, stdout: Seq<u8>, now: (i64, u32)) -> Option<
    i64,
> {
    if !success {
        None
    } else {
        match snapshot_time_of(stdout) {
            None => None,
            Some(t) => match rfc3339_instant(t) {
                None => None,
                Some(instant) => seconds_between(now, instant),
            },
        }
    }
}

/// Restic succeeded, printed a snapshot time that `chrono` reads, and both
/// that instant and `now` are ordinary: the case in which an age is owed.
pub open spec fn ordinary_age(success: bool, stdout: Seq<u8>, now: (i64, u32)) -> bool {
    &&& success
    &&& snapshot_time_of(stdout) matches Some(t)
    &&& rfc3339_instant(t) matches Some(i)
    &&& ordinary_instant(i)
    &&& ordinary_instant(now)
}

/// The freshness of the latest snapshot at `now`: unavailable without an
/// age, else by its whole hours (rounded toward zero).
pub open spec fn restic_status_spec(success: bool, stdout: Seq<u8>, now: (i64, u32)) -> BackupStatus {
    match snapshot_age_spec(success, stdout, now) {
        None => BackupStatus::Unavailable,
        Some(seconds) => backup_for_age(div_toward_zero(seconds as int, 3600) as i64),
    }
}

/// The age in seconds of the latest Restic snapshot at the instant `now`.
pub fn snapshot_age_at(success: bool, stdout: &[u8], now: (i64, u32)) -> (r: Option<i64>)
    ensures
        r == snapshot_age_spec(success, stdout@, now),
        ordinary_age(success, stdout@, now) ==> r == Some(
            whole_seconds(now, rfc3339_instant(snapshot_time_of(stdout@)->0)->0) as i64,
        ),
{
    if !success {
        return None;
    }
    let time = match latest_snapshot_time(stdout) {
        Some(t) => t,
        None => return None,
    };
    match parse_instant(time.as_str()) {
        Some(instant) => elapsed_seconds(now, instant),
        None => None,
    }
}

/// The age in seconds of the latest Restic snapshot, now.
pub fn snapshot_age(success: bool, stdout: &[u8]) -> (r: Option<i64>)
    ensures
        exists|now: (i64, u32)|
            now.0 >= 0 && now.1 < 1_000_000_000 && r == snapshot_age_spec(success, stdout@, now),
{
    let now = utc_now();
    snapshot_age_at(success, stdout, now)
}

/// Whole hours in `seconds`, rounded toward zero.
fn whole_hours(seconds: i64) -> (h: i64)
    ensures
        h == div_toward_zero(seconds as int, 3600),
{
    if seconds >= 0 {
        seconds / 3600
    } else {
        let magnitude: i128 = -(seconds as i128);
        let hours: i128 = magnitude / 3600;
        (-hours) as i64
    }
}

/// The freshness of the latest Restic snapshot at the instant `now`.
pub fn backup_from_restic_at(success: bool, stdout: &[u8], now: (i64, u32)) -> (r: BackupStatus)
    ensures
        r == restic_status_spec(success, stdout@, now),
        ordinary_age(success, stdout@, now) ==> r == backup_for_age(
            div_toward_zero(
                whole_seconds(now, rfc3339_instant(snapshot_time_of(stdout@)->0)->0),
                3600,
            ) as i64,
        ),
{
    match snapshot_age_at(success, stdout, now) {
        None => BackupStatus::Unavailable,
        Some(seconds) => backup_status_for_age(whole_hours(seconds)),
    }
}

/// The freshness of the latest snapshot from the output of
/// `restic snapshots --latest 1 --json`, against the clock now.
pub fn backup_from_restic(success: bool, stdout: &[u8]) -> (r: BackupStatus)
    ensures
        exists|now: (i64, u32)|
            now.0 >= 0 && now.1 < 1_000_000_000 && r == restic_status_spec(success, stdout@, now),
        !(r is Checking),
{
    let now = utc_now();
    backup_from_restic_at(success, stdout, now)
}

/// A backup path's entry on the dashboard from its snapshot age in
/// seconds: unavailable without an age; otherwise its age in whole minutes
/// (0 for a snapshot from the future), stale once its whole hours exceed
/// `stale_hours`.
pub open spec fn backup_entry_spec(age_seconds: Option<i64>, stale_hours: i64) -> crate::status::BackupStatus {
    match age_seconds {
        None => crate::status::BackupStatus::Unavailable,
        Some(s) => {
            let minutes: u32 = if s <= 0 {
                0
            } else if s / 60 > u32::MAX {
                u32::MAX
            } else {
                (s / 60) as u32
            };
            if div_toward_zero(s as int, 3600) > stale_hours {
                crate::status::BackupStatus::Stale { age_minutes: minutes }
            } else {
                crate::status::BackupStatus::Current { age_minutes: minutes }
            }
        },
    }
}

/// The dashboard entry of a backup path.
pub fn backup_entry(age_seconds: Option<i64>, stale_hours: i64) -> (r: crate::status::BackupStatus)
    ensures
        r == backup_entry_spec(age_seconds, stale_hours),
{
    match age_seconds {
        None => crate::status::BackupStatus::Unavailable,
        Some(s) => {
            let minutes: u32 = if s <= 0 {
                0
            } else if s / 60 > u32::MAX as i64 {
                u32::MAX
            } else {
                (s / 60) as u32
            };
            if whole_hours(s) > stale_hours {
                crate::status::BackupStatus::Stale { age_minutes: minutes }
            } else {
                crate::status::BackupStatus::Current { age_minutes: minutes }
            }
        },
    }
}

// ---------------------------------------------------------------------------
// Activity
// ---------------------------------------------------------------------------

/// The aggregate CPU counters of `/proc/stat`.
pub fn cpu_sample_from(text: &str) -> (r: Option<CpuSample>)
    ensures
        match (r, cpu_sample_spec(text@)) {
            (Some(a), Some(b)) => a.0@ == b,
            (None, None) => true,
            _ => false,
        },
{
    let ls = split_lines(&chars_of(text));
    let i = match find_prefixed(&ls, "cpu ") {
        Some(i) => i,
        None => return None,
    };
    assert(ls.deep_view()[i as int] == ls@[i as int]@);
    let f = split_fields(&ls[i]);
    let ghost fv = f.deep_view();
    let ghost l = ls@[i as int]@;
    assert(first_with_prefix(lines(text@), "cpu "@) == Some(l));
    assert(fields(l) == fv);
    if f.len() < 9 {
        return None;
    }
    let mut values: Vec<u64> = Vec::new();
    let mut k: usize = 1;
    while k <= 8
        invariant
            fv == f.deep_view(),
            first_with_prefix(lines(text@), "cpu "@) == Some(l),
            fields(l) == fv,
            f.len() >= 9,
            1 <= k <= 9,
            values.len() == k - 1,
            forall|j: int| 1 <= j < k ==> (#[trigger] parse_unsigned(fv[j], u64::MAX as nat)) is Some,
            forall|j: int| 0 <= j < k - 1 ==> values@[j] == parse_unsigned(fv[j + 1], u64::MAX as nat)->0 as u64,
        decreases 9 - k,
    {
        assert(fv[k as int] == f@[k as int]@);
        match parse_u64(&f[k]) {
            Some(v) => values.push(v),
            None => {
                assert(parse_unsigned(fv[k as int], u64::MAX as nat) is None);
                assert(!cpu_fields_ok(fv));
                return None;
            },
        }
        k = k + 1;
    }
    let sample = CpuSample(
        [values[0], values[1], values[2], values[3], values[4], values[5], values[6], values[7]],
    );
    assert(sample.0@ =~= Seq::new(8, |j: int| parse_unsigned(fv[j + 1], u64::MAX as nat)->0 as u64));
    Some(sample)
}

proof fn lemma_delta_sum_grows(previous: Seq<u64>, current: Seq<u64>, m: nat, n: nat)
    requires
        m <= n <= previous.len(),
        n <= current.len(),
        forall|k: int| 0 <= k < n ==> previous[k] <= current[k],
    ensures
        delta_sum(previous, current, m) <= delta_sum(previous, current, n),
    decreases n - m,
{
    if m < n {
        lemma_delta_sum_grows(previous, current, m, (n - 1) as nat);
    }
}

proof fn lemma_idle_within_total(p: Seq<u64>, c: Seq<u64>)
    requires
        p.len() == 8,
        c.len() == 8,
        forall|k: int| 0 <= k < 8 ==> p[k] <= c[k],
    ensures
        delta_sum(p, c, 8) >= (c[3] - p[3]) + (c[4] - p[4]),
{
    lemma_delta_sum_grows(p, c, 5, 8);
    lemma_delta_sum_grows(p, c, 0, 3);
    assert(delta_sum(p, c, 4) == delta_sum(p, c, 3) + c[3] - p[3]);
    assert(delta_sum(p, c, 5) == delta_sum(p, c, 4) + c[4] - p[4]);
}

/// CPU work between two samples.
pub fn cpu_counts(previous: &CpuSample, current: &CpuSample) -> (r: Option<CpuCounts>)
    ensures
        r == cpu_counts_spec(previous.0@, current.0@),
        r matches Some(counts) ==> counts.total == ticks(previous.0@, current.0@, 0) + ticks(
            previous.0@,
            current.0@,
            1,
        ) + ticks(previous.0@, current.0@, 2) + ticks(previous.0@, current.0@, 3) + ticks(
            previous.0@,
            current.0@,
            4,
        ) + ticks(previous.0@, current.0@, 5) + ticks(previous.0@, current.0@, 6) + ticks(
            previous.0@,
            current.0@,
            7,
        ),
        r matches Some(counts) ==> counts.busy == ticks(previous.0@, current.0@, 0) + ticks(
            previous.0@,
            current.0@,
            1,
        ) + ticks(previous.0@, current.0@, 2) + ticks(previous.0@, current.0@, 5) + ticks(
            previous.0@,
            current.0@,
            6,
        ) + ticks(previous.0@, current.0@, 7),
{
    proof {
        lemma_cpu_busy_is_all_but_idle(previous.0@, current.0@);
    }
    let ghost p = previous.0@;
    let ghost c = current.0@;
    let mut total: u64 = 0;
    let mut k: usize = 0;
    while k < 8
        invariant
            p == previous.0@,
            c == current.0@,
            k <= 8,
            forall|j: int| 0 <= j < k ==> p[j] <= c[j],
            total == delta_sum(p, c, k as nat),
        decreases 8 - k,
    {
        if current.0[k] < previous.0[k] {
            return None;
        }
        let delta = current.0[k] - previous.0[k];
        match total.checked_add(delta) {
            Some(t) => total = t,
            None => {
                proof {
                    if forall|j: int| 0 <= j < 8 ==> p[j] <= c[j] {
                        lemma_delta_sum_grows(p, c, (k + 1) as nat, 8);
                    }
                }
                return None;
            },
        }
        k = k + 1;
    }
    if total == 0 {
        return None;
    }
    proof {
        lemma_idle_within_total(p, c);
    }
    let idle = (current.0[3] - previous.0[3]) + (current.0[4] - previous.0[4]);
    Some(CpuCounts { busy: total - idle, total })
}

/// The sectors read and written by `device` in `/proc/diskstats`.
pub fn disk_sample_from(text: &str, device: &str) -> (r: Option<DiskSample>)
    ensures
        r == disk_sample_spec(text@, device@),
{
    let ls = split_lines(&chars_of(text));
    let ghost dv = ls.deep_view();
    let mut i: usize = 0;
    assert(dv.skip(0) =~= dv);
    while i < ls.len()
        invariant
            dv == ls.deep_view(),
            dv == lines(text@),
            i <= ls.len(),
            device_fields(dv, device@) == device_fields(dv.skip(i as int), device@),
        decreases ls.len() - i,
    {
        assert(dv.skip(i as int)[0] == dv[i as int]);
        assert(dv[i as int] == ls@[i as int]@);
        let f = split_fields(&ls[i]);
        assert(f.deep_view() == fields(dv.skip(i as int)[0]));
        let hit = if f.len() > 2 {
            assert(f.deep_view()[2] == f@[2]@);
            same_as_str(&f[2], device)
        } else {
            false
        };
        if hit {
            assert(device_fields(dv.skip(i as int), device@) == Some(f.deep_view()));
            assert(device_fields(lines(text@), device@) == Some(f.deep_view()));
            assert(f.deep_view().len() == f.len());
            if f.len() <= 9 {
                return None;
            }
            assert(f.deep_view()[5] == f@[5]@);
            assert(f.deep_view()[9] == f@[9]@);
            let read = match parse_u64(&f[5]) {
                Some(v) => v,
                None => return None,
            };
            let written = match parse_u64(&f[9]) {
                Some(v) => v,
                None => return None,
            };
            return Some(DiskSample { read, written });
        }
        assert(dv.skip(i as int).drop_first() =~= dv.skip(i + 1));
        assert(device_fields(dv.skip(i as int), device@) == device_fields(dv.skip(i + 1), device@));
        i = i + 1;
    }
    assert(dv.skip(i as int) =~= Seq::<Seq<char>>::empty());
    None
}

/// Disk work between two samples over `elapsed_ns` nanoseconds.
pub fn disk_counts(previous: &DiskSample, current: &DiskSample, elapsed_ns: u64) -> (r: Option<
    DiskCounts,
>)
    ensures
        r == disk_counts_spec(*previous, *current, elapsed_ns),
{
    if elapsed_ns == 0 {
        return None;
    }
    if current.read < previous.read || current.written < previous.written {
        return None;
    }
    Some(
        DiskCounts {
            read_sectors: current.read - previous.read,
            written_sectors: current.written - previous.written,
            elapsed_ns,
        },
    )
}

impl ActivityCollector {
    /// A collector that has seen nothing yet.
    pub fn new() -> (c: ActivityCollector)
        ensures
            c@.previous_cpu is None,
            c@.previous_disk is None,
    {
        ActivityCollector { previous_cpu: None, previous_disk: None }
    }

    /// Records the new samples, taken at monotonic time `now_ns`, and
    /// returns the work done since the previous ones.
    pub fn observe(&mut self, cpu: Option<CpuSample>, disk: Option<DiskSample>, now_ns: u64) -> (r:
        ActivityCounts)
        ensures
            r == observe_counts(old(self)@, cpu, disk, now_ns),
            final(self)@ == observe_state(cpu, disk, now_ns),
    {
        let cpu_counts = match (&self.previous_cpu, &cpu) {
            (Some(p), Some(c)) => cpu_counts(p, c),
            _ => None,
        };
        self.previous_cpu = cpu;
        let disk_counts = match (&self.previous_disk, &disk) {
            (Some((p, t)), Some(c)) => {
                let elapsed = if now_ns >= *t {
                    now_ns - *t
                } else {
                    0
                };
                disk_counts(p, c, elapsed)
            },
            _ => None,
        };
        self.previous_disk = match disk {
            Some(d) => Some((d, now_ns)),
            None => None,
        };
        ActivityCounts { cpu: cpu_counts, disk: disk_counts }
    }
}

impl Default for ActivityCollector {
    fn default() -> (c: ActivityCollector)
        ensures
            c@.previous_cpu is None,
            c@.previous_disk is None,
    {
        ActivityCollector::new()
    }
}

// ---------------------------------------------------------------------------
// Laws
// ---------------------------------------------------------------------------

/// A first sample gives no activity, never a plausible zero: a fresh
/// collector reports both CPU and disk work as unknown.
pub proof fn lemma_first_sample_unknown(
    s: CollectorState,
    cpu: Option<CpuSample>,
    disk: Option<DiskSample>,
    now_ns: u64,
)
    requires
        s.previous_cpu is None,
        s.previous_disk is None,
    ensures
        observe_counts(s, cpu, disk, now_ns).cpu is None,
        observe_counts(s, cpu, disk, now_ns).disk is None,
{
}

/// CPU counts are consistent: busy ticks never exceed all ticks, and the
/// total is never zero.
pub proof fn lemma_cpu_counts_bounded(previous: Seq<u64>, current: Seq<u64>)
    requires
        previous.len() == 8,
        current.len() == 8,
    ensures
        cpu_counts_spec(previous, current) matches Some(c) ==> c.busy <= c.total && c.total > 0,
{
    if cpu_counts_spec(previous, current) is Some {
        lemma_idle_within_total(previous, current);
    }
}

/// A backup is stale exactly when its snapshot is older than
/// `BACKUP_STALE_HOURS` hours.
pub proof fn lemma_stale_threshold(age_hours: i64)
    ensures
        backup_for_age(age_hours) is Stale <==> age_hours > BACKUP_STALE_HOURS,
        backup_for_age(age_hours) is Current <==> age_hours <= BACKUP_STALE_HOURS,
{
}

/// A failed reading does not erase the other: the CPU work reported does
/// not depend on the disk sample, nor the disk work on the CPU sample.
pub proof fn lemma_readings_independent(
    s: CollectorState,
    cpu1: Option<CpuSample>,
    cpu2: Option<CpuSample>,
    disk1: Option<DiskSample>,
    disk2: Option<DiskSample>,
    now_ns: u64,
)
    ensures
        observe_counts(s, cpu1, disk1, now_ns).cpu == observe_counts(s, cpu1, disk2, now_ns).cpu,
        observe_counts(s, cpu1, disk1, now_ns).disk == observe_counts(s, cpu2, disk1, now_ns).disk,
        observe_state(cpu1, disk1, now_ns).previous_cpu == observe_state(cpu1, disk2, now_ns).previous_cpu,
        observe_state(cpu1, disk1, now_ns).previous_disk == observe_state(cpu2, disk1, now_ns).previous_disk,
{
}

} // verus!
