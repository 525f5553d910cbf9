//! Host metrics read from the text that the remote commands print. Each
//! reader tolerates text it cannot read and falls back on a documented
//! default.
//!
//! Percentages are whole hundredths of a percent, 0 to 10000 for 0 to 100
//! percent. Rates are whole bytes per second.

use vstd::prelude::*;
use vstd::string::StringExecFns;
use crate::netrate::{kept, rates_for, NetworkSampleCache, Rates, Sample};
use crate::number::{clipped, scaled, scaled_floor};
use crate::size::{size_in, size_of};
use crate::text::{
    chars_of,
    fields_of,
    lines_of,
    parse_u64,
    parsed_u64,
    slice_of,
    split_fields,
    split_lines,
    string_of,
    texts,
    trim_chars,
    trimmed,
};

verus! {

/// Counts of processes by state.
#[derive(Debug, Clone, Copy, PartialEq, Eq, Structural)]
pub struct ProcessInfo {
    pub total: u32,
    pub running: u32,
    pub sleeping: u32,
}

/// Memory figures in bytes; `usage` is `used` against `total` in hundredths
/// of a percent.
#[derive(Debug, Clone, Copy, PartialEq, Eq, Structural)]
pub struct MemoryInfo {
    pub total: u64,
    pub used: u64,
    pub available: u64,
    pub cached: u64,
    pub usage: u64,
}

/// The processor: its model, the share of busy time in hundredths of a
/// percent, and one figure per displayed core.
///
/// The per-core figures are not measured. They are the overall figure plus a
/// fixed offset per core, for display only.
#[derive(Debug, Clone, PartialEq, Eq)]
pub struct CpuInfo {
    pub model: String,
    pub usage: u64,
    pub cores: Vec<u64>,
}

/// The model of a [`CpuInfo`].
pub struct CpuView {
    pub model: Seq<char>,
    pub usage: u64,
    pub cores: Seq<u64>,
}

impl View for CpuInfo {
    type V = CpuView;

    open spec fn view(&self) -> CpuView {
        CpuView { model: self.model@, usage: self.usage, cores: self.cores@ }
    }
}

/// The number of per-core figures.
pub const DISPLAYED_CORES: usize = 8;

/// The value of a numeric field, or `default` where the field is no
/// unsigned 64-bit number.
pub open spec fn number_or(field: Seq<char>, default: u64) -> u64 {
    match parsed_u64(field) {
        Some(value) => value,
        None => default,
    }
}

/// `part` of `whole` in hundredths of a percent, rounded down; zero where
/// `whole` is zero.
pub open spec fn ratio_of(part: nat, whole: nat) -> nat {
    if whole == 0 {
        0
    } else {
        part * 10000 / whole
    }
}

/// The share of busy time in an accounting line of the form
/// `cpu user nice system idle ...`: user, nice and system against those and
/// idle. A line with fewer than five fields gives zero, and a field that is
/// no number counts as zero.
pub open spec fn cpu_usage_of(line: Seq<char>) -> u64 {
    let f = fields_of(line);
    if f.len() < 5 {
        0
    } else {
        let busy = number_or(f[1], 0) + number_or(f[2], 0) + number_or(f[3], 0);
        ratio_of(busy as nat, (busy + number_or(f[4], 0)) as nat) as u64
    }
}

/// The fixed offset of core `i`, in hundredths of a percent: 7.3 percent per
/// core, wrapped into the range from -10 to +10 percent.
pub open spec fn core_offset(i: int) -> int {
    (i * 730) % 2000 - 1000
}

/// The figure shown for core `i`: the overall figure plus the core's offset,
/// kept between 0 and 100 percent.
pub open spec fn core_usage(usage: u64, i: int) -> u64 {
    let shifted = usage + core_offset(i);
    if shifted < 0 {
        0
    } else if shifted > 10000 {
        10000
    } else {
        shifted as u64
    }
}

/// The figures shown for the displayed cores.
pub open spec fn cores_of(usage: u64) -> Seq<u64> {
    Seq::new(DISPLAYED_CORES as nat, |i: int| core_usage(usage, i))
}

/// The value of a count field, or zero where the field is no unsigned
/// 32-bit number.
pub open spec fn count_of(field: Seq<char>) -> u32 {
    match parsed_u64(field) {
        Some(value) => if value <= u32::MAX {
            value as u32
        } else {
            0
        },
        None => 0,
    }
}

/// `a + b`, held at the largest 32-bit number.
pub open spec fn capped_sum(a: u32, b: u32) -> u32 {
    if a + b > u32::MAX {
        u32::MAX
    } else {
        (a + b) as u32
    }
}

/// The counts after one more line of the form `count state`. The first
/// letter of the state decides: `R` is running; `S`, `D` and `I` are
/// sleeping; every line with two fields counts toward the total.
pub open spec fn tally_line(so_far: ProcessInfo, line: Seq<char>) -> ProcessInfo {
    let f = fields_of(line);
    if f.len() >= 2 && f[1].len() > 0 {
        let count = count_of(f[0]);
        let state = f[1][0];
        ProcessInfo {
            total: capped_sum(so_far.total, count),
            running: if state == 'R' {
                capped_sum(so_far.running, count)
            } else {
                so_far.running
            },
            sleeping: if state == 'S' || state == 'D' || state == 'I' {
                capped_sum(so_far.sleeping, count)
            } else {
                so_far.sleeping
            },
        }
    } else {
        so_far
    }
}

/// The counts of all lines, taken in order.
pub open spec fn tally(lines: Seq<Seq<char>>) -> ProcessInfo
    decreases lines.len(),
{
    if lines.len() == 0 {
        ProcessInfo { total: 0, running: 0, sleeping: 0 }
    } else {
        tally_line(tally(lines.drop_last()), lines.last())
    }
}

/// The process counts of a state histogram, or the default of 245 processes,
/// 12 running and 233 sleeping, where the histogram counts none.
pub open spec fn processes_of(lines: Seq<Seq<char>>) -> ProcessInfo {
    if tally(lines).total == 0 {
        ProcessInfo { total: 245, running: 12, sleeping: 233 }
    } else {
        tally(lines)
    }
}

/// The second field of the first line that has two fields or more and `key`
/// as its first.
pub open spec fn lookup(lines: Seq<Seq<char>>, key: Seq<char>) -> Option<Seq<char>>
    decreases lines.len(),
{
    if lines.len() == 0 {
        None
    } else {
        let f = fields_of(lines[0]);
        if f.len() >= 2 && f[0] == key {
            Some(f[1])
        } else {
            lookup(lines.drop_first(), key)
        }
    }
}

/// The number filed under `key`, or `default` where there is no such line or
/// no number in it.
pub open spec fn amount(lines: Seq<Seq<char>>, key: Seq<char>, default: u64) -> u64 {
    match lookup(lines, key) {
        Some(field) => number_or(field, default),
        None => default,
    }
}

/// Kibibytes as bytes, held at the largest 64-bit number.
pub open spec fn kib(amount: u64) -> u64 {
    if amount * 1024 > u64::MAX {
        u64::MAX
    } else {
        (amount * 1024) as u64
    }
}

/// The memory figures in lines of the form `Key: amount kB`. The defaults,
/// in kibibytes, are 16777216 for `MemTotal:`, 8388608 for `MemAvailable:`
/// and 2097152 for `Cached:`. What is not available is in use.
pub open spec fn memory_of(lines: Seq<Seq<char>>) -> MemoryInfo {
    let total = kib(amount(lines, "MemTotal:"@, 16777216));
    let available = kib(amount(lines, "MemAvailable:"@, 8388608));
    let cached = kib(amount(lines, "Cached:"@, 2097152));
    let used = if total >= available {
        (total - available) as u64
    } else {
        0
    };
    MemoryInfo { total, used, available, cached, usage: ratio_of(used as nat, total as nat) as u64 }
}

/// Two texts hold the same characters.
pub fn same_text(a: &Vec<char>, b: &Vec<char>) -> (r: bool)
    ensures
        r == (a@ == b@),
{
    if a.len() != b.len() {
        return false;
    }
    let mut i: usize = 0;
    while i < a.len()
        invariant
            i <= a.len(),
            a.len() == b.len(),
            forall|k: int| 0 <= k < i ==> a@[k] == b@[k],
        decreases a.len() - i,
    {
        if a[i] != b[i] {
            return false;
        }
        i += 1;
    }
    assert(a@ =~= b@);
    true
}

pub(crate) fn number_in(field: &Vec<char>, default: u64) -> (r: u64)
    ensures
        r == number_or(field@, default),
{
    match parse_u64(field) {
        Some(value) => value,
        None => default,
    }
}

/// `part` of `whole` in hundredths of a percent, held at the largest 64-bit
/// number.
pub fn ratio(part: u64, whole: u64) -> (r: u64)
    ensures
        r == clipped(ratio_of(part as nat, whole as nat)),
        part <= whole ==> r == ratio_of(part as nat, whole as nat) && r <= 10000,
{
    if whole == 0 {
        0
    } else {
        proof {
            if part <= whole {
                assert(part * 10000 / (whole as int) <= 10000) by (nonlinear_arith)
                    requires
                        part <= whole,
                        whole > 0,
                ;
            }
        }
        let scaled: u128 = part as u128 * 10000;
        let whole_part: u128 = scaled / (whole as u128);
        if whole_part > u64::MAX as u128 {
            u64::MAX
        } else {
            whole_part as u64
        }
    }
}

pub(crate) fn cpu_usage_in(line: &Vec<char>) -> (usage: u64)
    ensures
        usage == cpu_usage_of(line@),
        usage <= 10000,
{
    let f = split_fields(line);
    proof {
        assert(texts(f@).len() == f@.len());
    }
    if f.len() < 5 {
        return 0;
    }
    assert(texts(f@)[1] == f@[1]@ && texts(f@)[2] == f@[2]@ && texts(f@)[3] == f@[3]@ && texts(
        f@,
    )[4] == f@[4]@);
    let user = number_in(&f[1], 0) as u128;
    let nice = number_in(&f[2], 0) as u128;
    let system = number_in(&f[3], 0) as u128;
    let idle = number_in(&f[4], 0) as u128;
    let busy = user + nice + system;
    let all = busy + idle;
    if all == 0 {
        0
    } else {
        assert(busy * 10000 / (all as int) <= 10000) by (nonlinear_arith)
            requires
                busy <= all,
                all > 0,
        ;
        (busy * 10000 / all) as u64
    }
}

/// The share of busy time in a processor accounting line, in hundredths of a
/// percent.
pub fn parse_cpu_usage(cpu_stat: &str) -> (usage: u64)
    ensures
        usage == cpu_usage_of(cpu_stat@),
        usage <= 10000,
{
    let line = chars_of(cpu_stat);
    cpu_usage_in(&line)
}

/// The figures shown for the displayed cores, given the overall figure.
pub fn core_figures(usage: u64) -> (cores: Vec<u64>)
    ensures
        cores@ == cores_of(usage),
{
    let mut cores: Vec<u64> = Vec::new();
    let mut i: usize = 0;
    while i < DISPLAYED_CORES
        invariant
            i <= DISPLAYED_CORES,
            cores@.len() == i,
            forall|k: int| 0 <= k < i ==> cores@[k] == core_usage(usage, k),
        decreases DISPLAYED_CORES - i,
    {
        let wrapped: u64 = (i as u64 * 730) % 2000;
        let figure: u64 = if usage > 11000 {
            10000
        } else if usage + wrapped < 1000 {
            0
        } else if usage + wrapped - 1000 > 10000 {
            10000
        } else {
            usage + wrapped - 1000
        };
        cores.push(figure);
        i += 1;
    }
    assert(cores@ =~= cores_of(usage));
    cores
}

fn count_in(field: &Vec<char>) -> (r: u32)
    ensures
        r == count_of(field@),
{
    match parse_u64(field) {
        Some(value) => if value <= u32::MAX as u64 {
            value as u32
        } else {
            0
        },
        None => 0,
    }
}

fn tally_one(so_far: ProcessInfo, line: &Vec<char>) -> (r: ProcessInfo)
    ensures
        r == tally_line(so_far, line@),
{
    let f = split_fields(line);
    proof {
        assert(texts(f@).len() == f@.len());
    }
    if f.len() >= 2 {
        assert(texts(f@)[0] == f@[0]@ && texts(f@)[1] == f@[1]@);
        if f[1].len() > 0 {
            let count = count_in(&f[0]);
            let state = f[1][0];
            let mut r = so_far;
            r.total = so_far.total.saturating_add(count);
            if state == 'R' {
                r.running = so_far.running.saturating_add(count);
            }
            if state == 'S' || state == 'D' || state == 'I' {
                r.sleeping = so_far.sleeping.saturating_add(count);
            }
            return r;
        }
    }
    so_far
}

pub(crate) fn processes_in(lines: &Vec<Vec<char>>) -> (info: ProcessInfo)
    ensures
        info == processes_of(texts(lines@)),
{
    let mut so_far = ProcessInfo { total: 0, running: 0, sleeping: 0 };
    let mut i: usize = 0;
    let ghost all = texts(lines@);
    assert(all.take(0) =~= Seq::<Seq<char>>::empty());
    while i < lines.len()
        invariant
            i <= lines.len(),
            all == texts(lines@),
            so_far == tally(all.take(i as int)),
        decreases lines.len() - i,
    {
        proof {
            assert(all.take(i + 1).drop_last() =~= all.take(i as int));
            assert(all.take(i + 1).last() == lines@[i as int]@);
        }
        so_far = tally_one(so_far, &lines[i]);
        i += 1;
    }
    assert(all.take(i as int) =~= all);
    if so_far.total == 0 {
        ProcessInfo { total: 245, running: 12, sleeping: 233 }
    } else {
        so_far
    }
}

/// The process counts in a histogram of process states, one `count state`
/// pair per line.
pub fn parse_processes(ps_output: &str) -> (info: ProcessInfo)
    ensures
        info == processes_of(lines_of(ps_output@)),
{
    let text = chars_of(ps_output);
    let lines = split_lines(&text);
    processes_in(&lines)
}

pub(crate) fn lookup_in(lines: &Vec<Vec<char>>, key: &Vec<char>) -> (r: Option<Vec<char>>)
    ensures
        match r {
            Some(field) => lookup(texts(lines@), key@) == Some(field@),
            None => lookup(texts(lines@), key@) is None,
        },
{
    let mut i: usize = 0;
    let ghost all = texts(lines@);
    assert(all.skip(0) =~= all);
    while i < lines.len()
        invariant
            i <= lines.len(),
            all == texts(lines@),
            lookup(all.skip(i as int), key@) == lookup(all, key@),
        decreases lines.len() - i,
    {
        let mut f = split_fields(&lines[i]);
        proof {
            assert(texts(f@).len() == f@.len());
            assert(all.skip(i as int)[0] == lines@[i as int]@);
            assert(all.skip(i as int).drop_first() =~= all.skip(i + 1));
        }
        if f.len() >= 2 {
            assert(texts(f@)[0] == f@[0]@ && texts(f@)[1] == f@[1]@);
            if same_text(&f[0], key) {
                let field = f.swap_remove(1);
                return Some(field);
            }
        }
        i += 1;
    }
    assert(all.skip(i as int) =~= Seq::<Seq<char>>::empty());
    None
}

fn amount_in(lines: &Vec<Vec<char>>, key: &str, default: u64) -> (r: u64)
    ensures
        r == amount(texts(lines@), key@, default),
{
    let key_text = chars_of(key);
    match lookup_in(lines, &key_text) {
        Some(field) => number_in(&field, default),
        None => default,
    }
}

fn kib_in(amount: u64) -> (bytes: u64)
    ensures
        bytes == kib(amount),
{
    if amount > u64::MAX / 1024 {
        u64::MAX
    } else {
        amount * 1024
    }
}

pub(crate) fn memory_in(lines: &Vec<Vec<char>>) -> (info: MemoryInfo)
    ensures
        info == memory_of(texts(lines@)),
{
    let total = kib_in(amount_in(lines, "MemTotal:", 16777216));
    let available = kib_in(amount_in(lines, "MemAvailable:", 8388608));
    let cached = kib_in(amount_in(lines, "Cached:", 2097152));
    let used = total.saturating_sub(available);
    MemoryInfo { total, used, available, cached, usage: ratio(used, total) }
}

/// The memory figures in lines of the form `Key: amount kB`.
pub fn parse_memory(meminfo: &str) -> (info: MemoryInfo)
    ensures
        info == memory_of(lines_of(meminfo@)),
{
    let text = chars_of(meminfo);
    let lines = split_lines(&text);
    memory_in(&lines)
}

/// One mounted file system. Sizes are in bytes; `usage` is in hundredths of
/// a percent, as the remote side printed it.
#[derive(Debug, Clone, PartialEq, Eq)]
pub struct DiskInfo {
    pub device: String,
    pub filesystem: String,
    pub total: u64,
    pub used: u64,
    pub mountpoint: String,
    pub usage: u64,
}

/// The model of a [`DiskInfo`].
pub struct DiskView {
    pub device: Seq<char>,
    pub filesystem: Seq<char>,
    pub total: u64,
    pub used: u64,
    pub mountpoint: Seq<char>,
    pub usage: u64,
}

impl View for DiskInfo {
    type V = DiskView;

    open spec fn view(&self) -> DiskView {
        DiskView {
            device: self.device@,
            filesystem: self.filesystem@,
            total: self.total,
            used: self.used,
            mountpoint: self.mountpoint@,
            usage: self.usage,
        }
    }
}

/// The models of a list of disks.
pub open spec fn disk_views(disks: Seq<DiskInfo>) -> Seq<DiskView> {
    disks.map_values(|d: DiskInfo| d@)
}

/// `s` without the percent signs that end it.
pub open spec fn without_percent(s: Seq<char>) -> Seq<char>
    decreases s.len(),
{
    if s.len() > 0 && s.last() == '%' {
        without_percent(s.drop_last())
    } else {
        s
    }
}

/// A percentage such as `79%` in hundredths of a percent; zero where the
/// text holds no decimal number.
pub open spec fn percent_of_text(field: Seq<char>) -> u64 {
    clipped(scaled_floor(without_percent(field), 100))
}

/// The disk that a line of the usage table describes: device, file system,
/// size, used, available, percentage, mount point. A line with fewer than
/// seven fields describes none.
pub open spec fn disk_of(line: Seq<char>) -> Option<DiskView> {
    let f = fields_of(line);
    if f.len() >= 7 {
        Some(
            DiskView {
                device: f[0],
                filesystem: f[1],
                total: size_of(f[2]),
                used: size_of(f[3]),
                mountpoint: f[6],
                usage: percent_of_text(f[5]),
            },
        )
    } else {
        None
    }
}

/// The disks that the lines describe, in order.
pub open spec fn disks_in_lines(lines: Seq<Seq<char>>) -> Seq<DiskView>
    decreases lines.len(),
{
    if lines.len() == 0 {
        seq![]
    } else {
        let head = match disk_of(lines[0]) {
            Some(disk) => seq![disk],
            None => seq![],
        };
        head + disks_in_lines(lines.drop_first())
    }
}

/// The disk reported where the table describes none: `/dev/sda1`, `ext4`,
/// 500 GiB of which 375 GiB are used, mounted at `/`.
pub open spec fn default_disk() -> DiskView {
    DiskView {
        device: "/dev/sda1"@,
        filesystem: "ext4"@,
        total: 536870912000,
        used: 402653184000,
        mountpoint: "/"@,
        usage: 7500,
    }
}

/// The disks of a usage table, or the default disk where it describes none.
pub open spec fn disks_of(lines: Seq<Seq<char>>) -> Seq<DiskView> {
    if disks_in_lines(lines).len() == 0 {
        seq![default_disk()]
    } else {
        disks_in_lines(lines)
    }
}

fn percent_in(field: &Vec<char>) -> (r: u64)
    ensures
        r == percent_of_text(field@),
{
    let mut end: usize = field.len();
    assert(field@.take(end as int) =~= field@);
    while end > 0 && field[end - 1] == '%'
        invariant
            end <= field.len(),
            without_percent(field@.take(end as int)) == without_percent(field@),
        decreases end,
    {
        assert(field@.take(end as int).drop_last() =~= field@.take(end - 1));
        end -= 1;
    }
    let number = slice_of(field, 0, end);
    assert(number@ =~= field@.take(end as int));
    scaled(&number, 100)
}

fn disk_in(line: &Vec<char>) -> (r: Option<DiskInfo>)
    ensures
        match r {
            Some(disk) => disk_of(line@) == Some(disk@),
            None => disk_of(line@) is None,
        },
{
    let f = split_fields(line);
    proof {
        assert(texts(f@).len() == f@.len());
    }
    if f.len() >= 7 {
        assert(texts(f@)[0] == f@[0]@ && texts(f@)[1] == f@[1]@ && texts(f@)[2] == f@[2]@ && texts(
            f@,
        )[3] == f@[3]@ && texts(f@)[5] == f@[5]@ && texts(f@)[6] == f@[6]@);
        Some(
            DiskInfo {
                device: string_of(&f[0]),
                filesystem: string_of(&f[1]),
                total: size_in(&f[2]),
                used: size_in(&f[3]),
                mountpoint: string_of(&f[6]),
                usage: percent_in(&f[5]),
            },
        )
    } else {
        None
    }
}

pub(crate) fn disks_in(lines: &Vec<Vec<char>>) -> (disks: Vec<DiskInfo>)
    ensures
        disk_views(disks@) == disks_of(texts(lines@)),
{
    let mut disks: Vec<DiskInfo> = Vec::new();
    let mut i: usize = 0;
    let ghost all = texts(lines@);
    assert(all.skip(0) =~= all);
    assert(disk_views(disks@) + disks_in_lines(all) =~= disks_in_lines(all));
    while i < lines.len()
        invariant
            i <= lines.len(),
            all == texts(lines@),
            disk_views(disks@) + disks_in_lines(all.skip(i as int)) == disks_in_lines(all),
        decreases lines.len() - i,
    {
        proof {
            assert(all.skip(i as int)[0] == lines@[i as int]@);
            assert(all.skip(i as int).drop_first() =~= all.skip(i + 1));
        }
        match disk_in(&lines[i]) {
            Some(disk) => {
                proof {
                    assert(disk_views(disks@.push(disk)) =~= disk_views(disks@) + seq![disk@]);
                    assert(disk_views(disks@.push(disk)) + disks_in_lines(all.skip(i + 1))
                        =~= disk_views(disks@) + (seq![disk@] + disks_in_lines(all.skip(i + 1))));
                }
                disks.push(disk);
            },
            None => {
                assert(Seq::<DiskView>::empty() + disks_in_lines(all.skip(i + 1))
                    =~= disks_in_lines(all.skip(i + 1)));
            },
        }
        i += 1;
    }
    assert(all.skip(i as int) =~= Seq::<Seq<char>>::empty());
    assert(disk_views(disks@) + Seq::<DiskView>::empty() =~= disk_views(disks@));
    if disks.len() == 0 {
        let fallback = DiskInfo {
            device: String::from_str("/dev/sda1"),
            filesystem: String::from_str("ext4"),
            total: 536870912000,
            used: 402653184000,
            mountpoint: String::from_str("/"),
            usage: 7500,
        };
        assert(disk_views(disks@.push(fallback)) =~= seq![default_disk()]);
        disks.push(fallback);
    }
    disks
}

/// The disks in a usage table with the columns device, file system, size,
/// used, available, percentage and mount point.
pub fn parse_disks(df_output: &str) -> (disks: Vec<DiskInfo>)
    ensures
        disk_views(disks@) == disks_of(lines_of(df_output@)),
{
    let text = chars_of(df_output);
    let lines = split_lines(&text);
    disks_in(&lines)
}

/// One network interface. The counters are raw byte counts; the speeds are
/// whole bytes per second.
#[derive(Debug, Clone, PartialEq, Eq)]
pub struct NetworkInterface {
    pub name: String,
    pub status: String,
    pub ip: Option<String>,
    pub rx_bytes: u64,
    pub tx_bytes: u64,
    pub rx_speed: u64,
    pub tx_speed: u64,
}

/// The model of a [`NetworkInterface`].
pub struct InterfaceView {
    pub name: Seq<char>,
    pub status: Seq<char>,
    pub ip: Option<Seq<char>>,
    pub rx_bytes: u64,
    pub tx_bytes: u64,
    pub rx_speed: u64,
    pub tx_speed: u64,
}

impl View for NetworkInterface {
    type V = InterfaceView;

    open spec fn view(&self) -> InterfaceView {
        InterfaceView {
            name: self.name@,
            status: self.status@,
            ip: match self.ip {
                Some(address) => Some(address@),
                None => None,
            },
            rx_bytes: self.rx_bytes,
            tx_bytes: self.tx_bytes,
            rx_speed: self.rx_speed,
            tx_speed: self.tx_speed,
        }
    }
}

/// The models of a list of interfaces.
pub open spec fn interface_views(list: Seq<NetworkInterface>) -> Seq<InterfaceView> {
    list.map_values(|n: NetworkInterface| n@)
}

/// The raw counters of one interface.
pub struct Counters {
    pub name: Seq<char>,
    pub rx_bytes: u64,
    pub tx_bytes: u64,
}

/// The first position at or after `i` that holds `mark`, or the length of
/// `s`.
pub open spec fn find_char(s: Seq<char>, mark: char, i: int) -> int
    decreases s.len() - i,
{
    if 0 <= i < s.len() && s[i] != mark {
        find_char(s, mark, i + 1)
    } else {
        i
    }
}

/// The counters in a line of the form `name: rx ... tx ...`, where the
/// received bytes are the first and the transmitted bytes the ninth number
/// after the colon. A line without a colon, or with fewer than nine fields
/// after it, holds none. A field that is no number counts as zero.
pub open spec fn counters_of(line: Seq<char>) -> Option<Counters> {
    let colon = find_char(line, ':', 0);
    let stats = fields_of(line.subrange(colon + 1, line.len() as int));
    if colon < line.len() && stats.len() >= 9 {
        Some(
            Counters {
                name: trimmed(line.subrange(0, colon)),
                rx_bytes: number_or(stats[0], 0),
                tx_bytes: number_or(stats[8], 0),
            },
        )
    } else {
        None
    }
}

/// An interface counts as up where it is the loopback interface or has
/// moved any bytes.
pub open spec fn is_up(counters: Counters) -> bool {
    counters.name == "lo"@ || counters.rx_bytes > 0 || counters.tx_bytes > 0
}

/// The address filed under an interface's name in lines of the form
/// `name address/prefix`: the part before the slash, if it is not empty.
pub open spec fn address_of(addresses: Seq<Seq<char>>, name: Seq<char>) -> Option<Seq<char>> {
    match lookup(addresses, name) {
        Some(field) => {
            let address = field.subrange(0, find_char(field, '/', 0));
            if address.len() > 0 {
                Some(address)
            } else {
                None
            }
        },
        None => None,
    }
}

/// The interface made of its counters, its address and its rates.
pub open spec fn interface_of(
    counters: Counters,
    address: Option<Seq<char>>,
    rates: Rates,
) -> InterfaceView {
    InterfaceView {
        name: counters.name,
        status: if is_up(counters) {
            "up"@
        } else {
            "down"@
        },
        ip: address,
        rx_bytes: counters.rx_bytes,
        tx_bytes: counters.tx_bytes,
        rx_speed: rates.rx,
        tx_speed: rates.tx,
    }
}

/// The sample that an interface's counters make at the moment `now`.
pub open spec fn sample_of(counters: Counters, now: u64) -> Sample {
    Sample { rx_bytes: counters.rx_bytes, tx_bytes: counters.tx_bytes, at: now }
}

/// The interfaces that the lines describe, in order. Each takes its rates
/// from the sample kept for its name, and its own sample is kept for the
/// lines that follow.
pub open spec fn interfaces_in_lines(
    lines: Seq<Seq<char>>,
    addresses: Seq<Seq<char>>,
    cache: Map<Seq<char>, Sample>,
    now: u64,
) -> Seq<InterfaceView>
    decreases lines.len(),
{
    if lines.len() == 0 {
        seq![]
    } else {
        match counters_of(lines[0]) {
            Some(counters) => seq![
                interface_of(
                    counters,
                    address_of(addresses, counters.name),
                    rates_for(kept(cache, counters.name), sample_of(counters, now)),
                ),
            ] + interfaces_in_lines(
                lines.drop_first(),
                addresses,
                cache.insert(counters.name, sample_of(counters, now)),
                now,
            ),
            None => interfaces_in_lines(lines.drop_first(), addresses, cache, now),
        }
    }
}

/// The samples kept after the lines: those kept before, with the sample of
/// every interface that the lines describe in place of its earlier one.
pub open spec fn cache_after(lines: Seq<Seq<char>>, cache: Map<Seq<char>, Sample>, now: u64) -> Map<
    Seq<char>,
    Sample,
>
    decreases lines.len(),
{
    if lines.len() == 0 {
        cache
    } else {
        match counters_of(lines[0]) {
            Some(counters) => cache_after(
                lines.drop_first(),
                cache.insert(counters.name, sample_of(counters, now)),
                now,
            ),
            None => cache_after(lines.drop_first(), cache, now),
        }
    }
}

/// The interface reported where the lines describe none: `eth0`, up, at
/// 192.168.1.100, with 5 GiB received and 3 GiB sent, and no rates.
pub open spec fn default_interface() -> InterfaceView {
    InterfaceView {
        name: "eth0"@,
        status: "up"@,
        ip: Some("192.168.1.100"@),
        rx_bytes: 5368709120,
        tx_bytes: 3221225472,
        rx_speed: 0,
        tx_speed: 0,
    }
}

/// The interfaces of a counter table, or the default interface where it
/// describes none.
pub open spec fn interfaces_of(
    lines: Seq<Seq<char>>,
    addresses: Seq<Seq<char>>,
    cache: Map<Seq<char>, Sample>,
    now: u64,
) -> Seq<InterfaceView> {
    if interfaces_in_lines(lines, addresses, cache, now).len() == 0 {
        seq![default_interface()]
    } else {
        interfaces_in_lines(lines, addresses, cache, now)
    }
}

fn position_of(v: &Vec<char>, mark: char) -> (r: usize)
    ensures
        r == find_char(v@, mark, 0),
        r <= v.len(),
{
    let mut r: usize = 0;
    while r < v.len() && v[r] != mark
        invariant
            r <= v.len(),
            find_char(v@, mark, r as int) == find_char(v@, mark, 0),
        decreases v.len() - r,
    {
        r += 1;
    }
    r
}

struct RawCounters {
    name: Vec<char>,
    rx_bytes: u64,
    tx_bytes: u64,
}

impl RawCounters {
    spec fn model(&self) -> Counters {
        Counters { name: self.name@, rx_bytes: self.rx_bytes, tx_bytes: self.tx_bytes }
    }
}

fn counters_in(line: &Vec<char>) -> (r: Option<RawCounters>)
    ensures
        match r {
            Some(counters) => counters_of(line@) == Some(counters.model()),
            None => counters_of(line@) is None,
        },
{
    let colon = position_of(line, ':');
    if colon >= line.len() {
        return None;
    }
    let tail = slice_of(line, colon + 1, line.len());
    let stats = split_fields(&tail);
    proof {
        assert(texts(stats@).len() == stats@.len());
    }
    if stats.len() < 9 {
        return None;
    }
    assert(texts(stats@)[0] == stats@[0]@ && texts(stats@)[8] == stats@[8]@);
    let head = slice_of(line, 0, colon);
    Some(
        RawCounters {
            name: trim_chars(&head),
            rx_bytes: number_in(&stats[0], 0),
            tx_bytes: number_in(&stats[8], 0),
        },
    )
}

fn address_in(addresses: &Vec<Vec<char>>, name: &Vec<char>) -> (r: Option<String>)
    ensures
        match r {
            Some(address) => address_of(texts(addresses@), name@) == Some(address@),
            None => address_of(texts(addresses@), name@) is None,
        },
{
    match lookup_in(addresses, name) {
        Some(field) => {
            let slash = position_of(&field, '/');
            if slash > 0 {
                let address = slice_of(&field, 0, slash);
                Some(string_of(&address))
            } else {
                None
            }
        },
        None => None,
    }
}

fn interface_in(
    counters: &RawCounters,
    addresses: &Vec<Vec<char>>,
    rates: Rates,
) -> (r: NetworkInterface)
    ensures
        r@ == interface_of(
            counters.model(),
            address_of(texts(addresses@), counters.name@),
            rates,
        ),
{
    let loopback = chars_of("lo");
    let up = same_text(&counters.name, &loopback) || counters.rx_bytes > 0 || counters.tx_bytes
        > 0;
    NetworkInterface {
        name: string_of(&counters.name),
        status: if up {
            String::from_str("up")
        } else {
            String::from_str("down")
        },
        ip: address_in(addresses, &counters.name),
        rx_bytes: counters.rx_bytes,
        tx_bytes: counters.tx_bytes,
        rx_speed: rates.rx,
        tx_speed: rates.tx,
    }
}

pub(crate) fn interfaces_in(
    lines: &Vec<Vec<char>>,
    addresses: &Vec<Vec<char>>,
    cache: &mut NetworkSampleCache,
    now: u64,
) -> (list: Vec<NetworkInterface>)
    requires
        old(cache).wf(),
    ensures
        final(cache).wf(),
        interface_views(list@) == interfaces_of(
            texts(lines@),
            texts(addresses@),
            old(cache)@,
            now,
        ),
        final(cache)@ == cache_after(texts(lines@), old(cache)@, now),
{
    let mut list: Vec<NetworkInterface> = Vec::new();
    let mut i: usize = 0;
    let ghost all = texts(lines@);
    let ghost known = texts(addresses@);
    let ghost whole = interfaces_in_lines(all, known, cache@, now);
    assert(all.skip(0) =~= all);
    assert(interface_views(list@) + whole =~= whole);
    while i < lines.len()
        invariant
            i <= lines.len(),
            all == texts(lines@),
            known == texts(addresses@),
            cache.wf(),
            whole == interfaces_in_lines(all, known, old(cache)@, now),
            interface_views(list@) + interfaces_in_lines(all.skip(i as int), known, cache@, now)
                == whole,
            cache_after(all.skip(i as int), cache@, now) == cache_after(all, old(cache)@, now),
        decreases lines.len() - i,
    {
        proof {
            assert(all.skip(i as int)[0] == lines@[i as int]@);
            assert(all.skip(i as int).drop_first() =~= all.skip(i + 1));
        }
        match counters_in(&lines[i]) {
            Some(counters) => {
                let name = string_of(&counters.name);
                let sample = Sample {
                    rx_bytes: counters.rx_bytes,
                    tx_bytes: counters.tx_bytes,
                    at: now,
                };
                let rates = cache.sample(name.as_str(), sample);
                let interface = interface_in(&counters, addresses, rates);
                proof {
                    let rest = interfaces_in_lines(all.skip(i + 1), known, cache@, now);
                    assert(interface_views(list@.push(interface)) =~= interface_views(list@)
                        + seq![interface@]);
                    assert(interface_views(list@.push(interface)) + rest =~= interface_views(list@)
                        + (seq![interface@] + rest));
                }
                list.push(interface);
            },
            None => {},
        }
        i += 1;
    }
    assert(all.skip(i as int) =~= Seq::<Seq<char>>::empty());
    assert(interface_views(list@) + Seq::<InterfaceView>::empty() =~= interface_views(list@));
    if list.len() == 0 {
        let fallback = NetworkInterface {
            name: String::from_str("eth0"),
            status: String::from_str("up"),
            ip: Some(String::from_str("192.168.1.100")),
            rx_bytes: 5368709120,
            tx_bytes: 3221225472,
            rx_speed: 0,
            tx_speed: 0,
        };
        assert(interface_views(list@.push(fallback)) =~= seq![default_interface()]);
        list.push(fallback);
    }
    list
}

/// The interfaces in a table of raw interface counters, with their rates.
///
/// `addresses` holds one `name address/prefix` pair per line and may be
/// empty. `now` is a reading of a monotonic clock in microseconds. Each
/// interface that the table describes is sampled into `cache`.
pub fn parse_interfaces(
    net_dev: &str,
    addresses: &str,
    cache: &mut NetworkSampleCache,
    now: u64,
) -> (list: Vec<NetworkInterface>)
    requires
        old(cache).wf(),
    ensures
        final(cache).wf(),
        interface_views(list@) == interfaces_of(
            lines_of(net_dev@),
            lines_of(addresses@),
            old(cache)@,
            now,
        ),
        final(cache)@ == cache_after(lines_of(net_dev@), old(cache)@, now),
{
    let table = split_lines(&chars_of(net_dev));
    let known = split_lines(&chars_of(addresses));
    interfaces_in(&table, &known, cache, now)
}

/// The identity of the host.
#[derive(Debug, Clone, PartialEq, Eq)]
pub struct SystemInfo {
    pub hostname: String,
    pub os: String,
    pub arch: String,
    pub kernel: String,
    pub uptime: u64,
}

/// The model of a [`SystemInfo`].
pub struct SystemView {
    pub hostname: Seq<char>,
    pub os: Seq<char>,
    pub arch: Seq<char>,
    pub kernel: Seq<char>,
    pub uptime: u64,
}

impl View for SystemInfo {
    type V = SystemView;

    open spec fn view(&self) -> SystemView {
        SystemView {
            hostname: self.hostname@,
            os: self.os@,
            arch: self.arch@,
            kernel: self.kernel@,
            uptime: self.uptime,
        }
    }
}

/// The first line, trimmed; empty where there is no line.
pub open spec fn first_text(lines: Seq<Seq<char>>) -> Seq<char> {
    if lines.len() > 0 {
        trimmed(lines[0])
    } else {
        Seq::empty()
    }
}

/// The first line, trimmed, or `default` where that is empty.
pub open spec fn datum(lines: Seq<Seq<char>>, default: Seq<char>) -> Seq<char> {
    if first_text(lines).len() > 0 {
        first_text(lines)
    } else {
        default
    }
}

/// The whole seconds in an uptime such as `12345.67`; zero where the first
/// line holds no decimal number.
pub open spec fn uptime_of(lines: Seq<Seq<char>>) -> u64 {
    clipped(scaled_floor(first_text(lines), 1))
}

/// The identity of the host, from the output of five commands. The defaults
/// are `unknown` for the host name, the architecture and the kernel,
/// `Unknown OS` for the system, and zero for the uptime.
pub open spec fn system_of(
    hostname: Seq<Seq<char>>,
    os: Seq<Seq<char>>,
    arch: Seq<Seq<char>>,
    kernel: Seq<Seq<char>>,
    uptime: Seq<Seq<char>>,
) -> SystemView {
    SystemView {
        hostname: datum(hostname, "unknown"@),
        os: datum(os, "Unknown OS"@),
        arch: datum(arch, "unknown"@),
        kernel: datum(kernel, "unknown"@),
        uptime: uptime_of(uptime),
    }
}

/// The processor, from its model line and its accounting line. The default
/// model is `Unknown CPU`.
pub open spec fn cpu_of(model: Seq<Seq<char>>, stat: Seq<Seq<char>>) -> CpuView {
    let line = if stat.len() > 0 {
        stat[0]
    } else {
        Seq::empty()
    };
    CpuView {
        model: datum(model, "Unknown CPU"@),
        usage: cpu_usage_of(line),
        cores: cores_of(cpu_usage_of(line)),
    }
}

fn first_in(lines: &Vec<Vec<char>>) -> (r: Vec<char>)
    ensures
        r@ == first_text(texts(lines@)),
{
    if lines.len() > 0 {
        assert(texts(lines@)[0] == lines@[0]@);
        trim_chars(&lines[0])
    } else {
        Vec::new()
    }
}

fn datum_in(lines: &Vec<Vec<char>>, default: &str) -> (r: String)
    ensures
        r@ == datum(texts(lines@), default@),
{
    let first = first_in(lines);
    if first.len() > 0 {
        string_of(&first)
    } else {
        String::from_str(default)
    }
}

pub(crate) fn system_in(
    hostname: &Vec<Vec<char>>,
    os: &Vec<Vec<char>>,
    arch: &Vec<Vec<char>>,
    kernel: &Vec<Vec<char>>,
    uptime: &Vec<Vec<char>>,
) -> (info: SystemInfo)
    ensures
        info@ == system_of(
            texts(hostname@),
            texts(os@),
            texts(arch@),
            texts(kernel@),
            texts(uptime@),
        ),
{
    let seconds = first_in(uptime);
    SystemInfo {
        hostname: datum_in(hostname, "unknown"),
        os: datum_in(os, "Unknown OS"),
        arch: datum_in(arch, "unknown"),
        kernel: datum_in(kernel, "unknown"),
        uptime: scaled(&seconds, 1),
    }
}

pub(crate) fn cpu_in(model: &Vec<Vec<char>>, stat: &Vec<Vec<char>>) -> (info: CpuInfo)
    ensures
        info@ == cpu_of(texts(model@), texts(stat@)),
{
    let usage = if stat.len() > 0 {
        assert(texts(stat@)[0] == stat@[0]@);
        cpu_usage_in(&stat[0])
    } else {
        let nothing: Vec<char> = Vec::new();
        cpu_usage_in(&nothing)
    };
    CpuInfo { model: datum_in(model, "Unknown CPU"), usage, cores: core_figures(usage) }
}

/// The identity of the host, from the output of the five commands that
/// print the host name, the system's name, the architecture, the kernel
/// release and the uptime in seconds.
pub fn parse_system(hostname: &str, os: &str, arch: &str, kernel: &str, uptime: &str) -> (info:
    SystemInfo)
    ensures
        info@ == system_of(
            lines_of(hostname@),
            lines_of(os@),
            lines_of(arch@),
            lines_of(kernel@),
            lines_of(uptime@),
        ),
{
    let hostname = split_lines(&chars_of(hostname));
    let os = split_lines(&chars_of(os));
    let arch = split_lines(&chars_of(arch));
    let kernel = split_lines(&chars_of(kernel));
    let uptime = split_lines(&chars_of(uptime));
    system_in(&hostname, &os, &arch, &kernel, &uptime)
}

/// The processor, from the output of the command that prints its model and
/// from its accounting line.
pub fn parse_cpu(model: &str, cpu_stat: &str) -> (info: CpuInfo)
    ensures
        info@ == cpu_of(lines_of(model@), lines_of(cpu_stat@)),
{
    let model = split_lines(&chars_of(model));
    let stat = split_lines(&chars_of(cpu_stat));
    cpu_in(&model, &stat)
}

} // verus!
