//! The telemetry sampler: one script for all metrics, and its output taken
//! apart again.
//!
//! The script prints a marker line before the output of each command. The
//! output of a section is what stands between its marker and the next
//! marker. A section that is missing or unreadable gives its default.

use vstd::prelude::*;
use vstd::string::StringExecFns;
use crate::error::CoreError;
use crate::metrics::{
    cpu_in,
    cpu_of,
    disk_views,
    disks_in,
    disks_of,
    interface_views,
    interfaces_in,
    interfaces_of,
    cache_after,
    memory_in,
    memory_of,
    processes_in,
    processes_of,
    same_text,
    system_in,
    system_of,
    CpuInfo,
    CpuView,
    DiskInfo,
    DiskView,
    InterfaceView,
    MemoryInfo,
    NetworkInterface,
    ProcessInfo,
    SystemInfo,
    SystemView,
};
use crate::netrate::{NetworkSampleCache, Sample};
use crate::text::{chars_of, lines_of, slice_of, split_lines, texts, trim_chars, trimmed};

verus! {

/// The sections of the script, in the order in which it prints them.
#[derive(Debug, Clone, Copy, PartialEq, Eq, Structural)]
pub enum Section {
    Hostname,
    Os,
    Arch,
    Kernel,
    Uptime,
    CpuModel,
    CpuStat,
    Memory,
    Disks,
    Network,
    Addresses,
    Processes,
}

/// The line that the script prints before the output of a section.
pub open spec fn marker(section: Section) -> Seq<char> {
    match section {
        Section::Hostname => "@@termlink:hostname@@"@,
        Section::Os => "@@termlink:os@@"@,
        Section::Arch => "@@termlink:arch@@"@,
        Section::Kernel => "@@termlink:kernel@@"@,
        Section::Uptime => "@@termlink:uptime@@"@,
        Section::CpuModel => "@@termlink:cpu-model@@"@,
        Section::CpuStat => "@@termlink:cpu-stat@@"@,
        Section::Memory => "@@termlink:memory@@"@,
        Section::Disks => "@@termlink:disks@@"@,
        Section::Network => "@@termlink:network@@"@,
        Section::Addresses => "@@termlink:addresses@@"@,
        Section::Processes => "@@termlink:processes@@"@,
    }
}

/// The command whose output makes up a section.
pub open spec fn command(section: Section) -> Seq<char> {
    match section {
        Section::Hostname => "hostname"@,
        Section::Os => "cat /etc/os-release | grep PRETTY_NAME | cut -d'\"' -f2"@,
        Section::Arch => "uname -m"@,
        Section::Kernel => "uname -r"@,
        Section::Uptime => "cat /proc/uptime | cut -d' ' -f1"@,
        Section::CpuModel => "cat /proc/cpuinfo | grep 'model name' | head -n1 | cut -d':' -f2"@,
        Section::CpuStat => "cat /proc/stat | head -n1"@,
        Section::Memory => "cat /proc/meminfo | grep -E '^(MemTotal|MemAvailable|Cached):'"@,
        Section::Disks => "df -h --output=source,fstype,size,used,avail,pcent,target | grep -E '^/dev/'"@,
        Section::Network => "cat /proc/net/dev | tail -n +3"@,
        Section::Addresses => "ip -o -4 addr show | awk '{print $2, $4}'"@,
        Section::Processes => "ps axo stat --no-headers | sort | uniq -c"@,
    }
}

/// All sections, in script order.
pub open spec fn sections() -> Seq<Section> {
    seq![
        Section::Hostname,
        Section::Os,
        Section::Arch,
        Section::Kernel,
        Section::Uptime,
        Section::CpuModel,
        Section::CpuStat,
        Section::Memory,
        Section::Disks,
        Section::Network,
        Section::Addresses,
        Section::Processes,
    ]
}

/// The part of the script that prints one section: an `echo` of the marker
/// on a line of its own, then the command on the next line.
pub open spec fn script_part(section: Section) -> Seq<char> {
    "echo '"@ + marker(section) + "'\n"@ + command(section) + "\n"@
}

/// The script for a list of sections: their parts one after the other.
pub open spec fn script_for(list: Seq<Section>) -> Seq<char>
    decreases list.len(),
{
    if list.len() == 0 {
        Seq::empty()
    } else {
        script_part(list[0]) + script_for(list.drop_first())
    }
}

/// The whole script. It ends with `true`, so that a last command that found
/// nothing does not make the script fail.
pub open spec fn script_text() -> Seq<char> {
    script_for(sections()) + "true\n"@
}

/// True where a line, once trimmed, is the marker of some section.
pub open spec fn is_marker(line: Seq<char>) -> bool {
    let t = trimmed(line);
    t == marker(Section::Hostname) || t == marker(Section::Os) || t == marker(Section::Arch) || t
        == marker(Section::Kernel) || t == marker(Section::Uptime) || t == marker(
        Section::CpuModel,
    ) || t == marker(Section::CpuStat) || t == marker(Section::Memory) || t == marker(
        Section::Disks,
    ) || t == marker(Section::Network) || t == marker(Section::Addresses) || t == marker(
        Section::Processes,
    )
}

/// The first position at or after `i` whose line, once trimmed, is the
/// marker of `section`, or the number of lines.
pub open spec fn marker_at(lines: Seq<Seq<char>>, section: Section, i: int) -> int
    decreases lines.len() - i,
{
    if 0 <= i < lines.len() && trimmed(lines[i]) != marker(section) {
        marker_at(lines, section, i + 1)
    } else {
        i
    }
}

/// The first position at or after `i` whose line is some marker, or the
/// number of lines.
pub open spec fn section_end(lines: Seq<Seq<char>>, i: int) -> int
    decreases lines.len() - i,
{
    if 0 <= i < lines.len() && !is_marker(lines[i]) {
        section_end(lines, i + 1)
    } else {
        i
    }
}

/// The lines of a section: those between the first marker of the section
/// and the next marker of any section. A section without a marker has no
/// lines.
pub open spec fn section_lines(lines: Seq<Seq<char>>, section: Section) -> Seq<Seq<char>> {
    let at = marker_at(lines, section, 0);
    if 0 <= at < lines.len() {
        lines.subrange(at + 1, section_end(lines, at + 1))
    } else {
        Seq::empty()
    }
}

/// One telemetry sample.
#[derive(Debug, Clone, PartialEq, Eq)]
pub struct Metrics {
    pub system: SystemInfo,
    pub cpu: CpuInfo,
    pub memory: MemoryInfo,
    pub disks: Vec<DiskInfo>,
    pub network: Vec<NetworkInterface>,
    pub processes: ProcessInfo,
}

/// The model of a [`Metrics`].
pub struct MetricsView {
    pub system: SystemView,
    pub cpu: CpuView,
    pub memory: MemoryInfo,
    pub disks: Seq<DiskView>,
    pub network: Seq<InterfaceView>,
    pub processes: ProcessInfo,
}

impl View for Metrics {
    type V = MetricsView;

    open spec fn view(&self) -> MetricsView {
        MetricsView {
            system: self.system@,
            cpu: self.cpu@,
            memory: self.memory,
            disks: disk_views(self.disks@),
            network: interface_views(self.network@),
            processes: self.processes,
        }
    }
}

/// The sample that the script's output holds: each metric read from its own
/// section, the network rates taken against the samples kept in `cache`.
pub open spec fn metrics_of(output: Seq<char>, cache: Map<Seq<char>, Sample>, now: u64) -> MetricsView {
    let lines = lines_of(output);
    MetricsView {
        system: system_of(
            section_lines(lines, Section::Hostname),
            section_lines(lines, Section::Os),
            section_lines(lines, Section::Arch),
            section_lines(lines, Section::Kernel),
            section_lines(lines, Section::Uptime),
        ),
        cpu: cpu_of(
            section_lines(lines, Section::CpuModel),
            section_lines(lines, Section::CpuStat),
        ),
        memory: memory_of(section_lines(lines, Section::Memory)),
        disks: disks_of(section_lines(lines, Section::Disks)),
        network: interfaces_of(
            section_lines(lines, Section::Network),
            section_lines(lines, Section::Addresses),
            cache,
            now,
        ),
        processes: processes_of(section_lines(lines, Section::Processes)),
    }
}

/// The samples kept after the script's output was read.
pub open spec fn samples_after(output: Seq<char>, cache: Map<Seq<char>, Sample>, now: u64) -> Map<
    Seq<char>,
    Sample,
> {
    cache_after(section_lines(lines_of(output), Section::Network), cache, now)
}

/// The marker of a section.
pub fn marker_of(section: Section) -> (text: &'static str)
    ensures
        text@ == marker(section),
{
    match section {
        Section::Hostname => "@@termlink:hostname@@",
        Section::Os => "@@termlink:os@@",
        Section::Arch => "@@termlink:arch@@",
        Section::Kernel => "@@termlink:kernel@@",
        Section::Uptime => "@@termlink:uptime@@",
        Section::CpuModel => "@@termlink:cpu-model@@",
        Section::CpuStat => "@@termlink:cpu-stat@@",
        Section::Memory => "@@termlink:memory@@",
        Section::Disks => "@@termlink:disks@@",
        Section::Network => "@@termlink:network@@",
        Section::Addresses => "@@termlink:addresses@@",
        Section::Processes => "@@termlink:processes@@",
    }
}

/// The command of a section.
pub fn command_of(section: Section) -> (text: &'static str)
    ensures
        text@ == command(section),
{
    match section {
        Section::Hostname => "hostname",
        Section::Os => "cat /etc/os-release | grep PRETTY_NAME | cut -d'\"' -f2",
        Section::Arch => "uname -m",
        Section::Kernel => "uname -r",
        Section::Uptime => "cat /proc/uptime | cut -d' ' -f1",
        Section::CpuModel => "cat /proc/cpuinfo | grep 'model name' | head -n1 | cut -d':' -f2",
        Section::CpuStat => "cat /proc/stat | head -n1",
        Section::Memory => "cat /proc/meminfo | grep -E '^(MemTotal|MemAvailable|Cached):'",
        Section::Disks => "df -h --output=source,fstype,size,used,avail,pcent,target | grep -E '^/dev/'",
        Section::Network => "cat /proc/net/dev | tail -n +3",
        Section::Addresses => "ip -o -4 addr show | awk '{print $2, $4}'",
        Section::Processes => "ps axo stat --no-headers | sort | uniq -c",
    }
}

/// All sections, in script order.
pub fn all_sections() -> (list: Vec<Section>)
    ensures
        list@ == sections(),
{
    let list = vec![
        Section::Hostname,
        Section::Os,
        Section::Arch,
        Section::Kernel,
        Section::Uptime,
        Section::CpuModel,
        Section::CpuStat,
        Section::Memory,
        Section::Disks,
        Section::Network,
        Section::Addresses,
        Section::Processes,
    ];
    assert(list@ =~= sections());
    list
}

/// The script that prints every section, each behind its marker.
pub fn script() -> (text: String)
    ensures
        text@ == script_text(),
{
    let list = all_sections();
    let mut text = String::new();
    let mut i: usize = 0;
    assert(list@.skip(0) =~= list@);
    assert(text@ + script_for(list@) =~= script_for(list@));
    while i < list.len()
        invariant
            i <= list.len(),
            list@ == sections(),
            text@ + script_for(list@.skip(i as int)) == script_for(sections()),
        decreases list.len() - i,
    {
        let ghost before = text@;
        let ghost rest = list@.skip(i as int);
        assert(rest[0] == list@[i as int]);
        assert(rest.drop_first() =~= list@.skip(i + 1));
        text.append("echo '");
        text.append(marker_of(list[i]));
        text.append("'\n");
        text.append(command_of(list[i]));
        text.append("\n");
        assert(text@ =~= before + script_part(list@[i as int]));
        assert((before + script_part(rest[0])) + script_for(rest.drop_first()) =~= before + (
        script_part(rest[0]) + script_for(rest.drop_first())));
        i += 1;
    }
    assert(list@.skip(i as int) =~= Seq::<Section>::empty());
    assert(text@ + Seq::<char>::empty() =~= text@);
    text.append("true\n");
    text
}

fn is_marker_line(line: &Vec<char>) -> (b: bool)
    ensures
        b == is_marker(line@),
{
    let t = trim_chars(line);
    let list = all_sections();
    let mut i: usize = 0;
    while i < list.len()
        invariant
            i <= list.len(),
            list@ == sections(),
            t@ == trimmed(line@),
            forall|k: int| 0 <= k < i ==> t@ != marker(#[trigger] sections()[k]),
        decreases list.len() - i,
    {
        let m = chars_of(marker_of(list[i]));
        if same_text(&t, &m) {
            assert(t@ == marker(sections()[i as int]));
            return true;
        }
        i += 1;
    }
    assert(t@ != marker(sections()[0]) && t@ != marker(sections()[1]) && t@ != marker(
        sections()[2],
    ) && t@ != marker(sections()[3]) && t@ != marker(sections()[4]) && t@ != marker(
        sections()[5],
    ) && t@ != marker(sections()[6]) && t@ != marker(sections()[7]) && t@ != marker(
        sections()[8],
    ) && t@ != marker(sections()[9]) && t@ != marker(sections()[10]) && t@ != marker(
        sections()[11],
    ));
    false
}

fn section_in(lines: &Vec<Vec<char>>, section: Section) -> (part: Vec<Vec<char>>)
    ensures
        texts(part@) == section_lines(texts(lines@), section),
{
    let wanted = chars_of(marker_of(section));
    let ghost all = texts(lines@);
    let mut at: usize = 0;
    while at < lines.len()
        invariant_except_break
            at <= lines.len(),
            all == texts(lines@),
            wanted@ == marker(section),
            marker_at(all, section, at as int) == marker_at(all, section, 0),
        ensures
            at <= lines.len(),
            marker_at(all, section, 0) == at,
        decreases lines.len() - at,
    {
        assert(all[at as int] == lines@[at as int]@);
        let t = trim_chars(&lines[at]);
        if same_text(&t, &wanted) {
            break ;
        }
        at += 1;
    }
    let mut part: Vec<Vec<char>> = Vec::new();
    if at >= lines.len() {
        assert(texts(part@) =~= Seq::<Seq<char>>::empty());
        return part;
    }
    let mut i: usize = at + 1;
    assert(all.subrange(at + 1, i as int) =~= Seq::<Seq<char>>::empty());
    assert(texts(part@) =~= Seq::<Seq<char>>::empty());
    while i < lines.len()
        invariant_except_break
            at < i <= lines.len(),
            all == texts(lines@),
            section_end(all, i as int) == section_end(all, at + 1),
            texts(part@) == all.subrange(at + 1, i as int),
        ensures
            at < i <= lines.len(),
            section_end(all, at + 1) == i,
            texts(part@) == all.subrange(at + 1, i as int),
        decreases lines.len() - i,
    {
        assert(all[i as int] == lines@[i as int]@);
        if is_marker_line(&lines[i]) {
            break ;
        }
        let line = slice_of(&lines[i], 0, lines[i].len());
        proof {
            assert(line@ =~= lines@[i as int]@);
            assert(texts(part@.push(line)) =~= texts(part@) + seq![line@]);
            assert(all.subrange(at + 1, i + 1) =~= all.subrange(at + 1, i as int) + seq![
                all[i as int],
            ]);
        }
        part.push(line);
        i += 1;
    }
    part
}

/// Reads a sample from the output of the script.
///
/// Every metric is read from its own section and falls back on its default
/// where the section is missing or unreadable, so an empty output gives the
/// defaults throughout. `now` is a reading of a monotonic clock in
/// microseconds; each interface in the network section is sampled into
/// `cache`.
pub fn parse_sample(output: &str, cache: &mut NetworkSampleCache, now: u64) -> (metrics: Metrics)
    requires
        old(cache).wf(),
    ensures
        final(cache).wf(),
        metrics@ == metrics_of(output@, old(cache)@, now),
        final(cache)@ == samples_after(output@, old(cache)@, now),
{
    let lines = split_lines(&chars_of(output));
    let hostname = section_in(&lines, Section::Hostname);
    let os = section_in(&lines, Section::Os);
    let arch = section_in(&lines, Section::Arch);
    let kernel = section_in(&lines, Section::Kernel);
    let uptime = section_in(&lines, Section::Uptime);
    let model = section_in(&lines, Section::CpuModel);
    let stat = section_in(&lines, Section::CpuStat);
    let memory = section_in(&lines, Section::Memory);
    let disks = section_in(&lines, Section::Disks);
    let network = section_in(&lines, Section::Network);
    let addresses = section_in(&lines, Section::Addresses);
    let processes = section_in(&lines, Section::Processes);
    Metrics {
        system: system_in(&hostname, &os, &arch, &kernel, &uptime),
        cpu: cpu_in(&model, &stat),
        memory: memory_in(&memory),
        disks: disks_in(&disks),
        network: interfaces_in(&network, &addresses, cache, now),
        processes: processes_in(&processes),
    }
}

/// Reads a sample from what the script's execution came to.
///
/// An output that arrived is read like any output, with defaults for the
/// sections it lacks. A failed execution is no sample: its error is handed
/// on as it is, an unknown connection as `NotFound`, and the cache is left
/// as it was.
pub fn sample(
    outcome: Result<String, CoreError>,
    cache: &mut NetworkSampleCache,
    now: u64,
) -> (result: Result<Metrics, CoreError>)
    requires
        old(cache).wf(),
    ensures
        final(cache).wf(),
        match outcome {
            Ok(output) => {
                &&& result is Ok
                &&& result->Ok_0@ == metrics_of(output@, old(cache)@, now)
                &&& final(cache)@ == samples_after(output@, old(cache)@, now)
            },
            Err(error) => result == Err::<Metrics, CoreError>(error) && final(cache)@ == old(
                cache,
            )@,
        },
{
    match outcome {
        Ok(output) => Ok(parse_sample(output.as_str(), cache, now)),
        Err(error) => Err(error),
    }
}

} // verus!
