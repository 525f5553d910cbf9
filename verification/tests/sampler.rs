use termlink_core::error::CoreError;
use termlink_core::metrics::{core_figures, ProcessInfo};
use termlink_core::netrate::{NetworkSampleCache, Sample};
use termlink_core::sampler::{
    all_sections, command_of, marker_of, parse_sample, sample, script, Section,
};

const G: u64 = 1024 * 1024 * 1024;

fn output() -> String {
    let mut text = String::new();
    text.push_str("@@termlink:hostname@@\nweb-1\n");
    text.push_str("@@termlink:os@@\nDebian GNU/Linux 12 (bookworm)\n");
    text.push_str("@@termlink:arch@@\naarch64\n");
    text.push_str("@@termlink:kernel@@\n6.1.0-13\n");
    text.push_str("@@termlink:uptime@@\n86400.52\n");
    text.push_str("@@termlink:cpu-model@@\n Cortex-A72\n");
    text.push_str("@@termlink:cpu-stat@@\ncpu  300 0 100 600 0 0 0 0 0 0\n");
    text.push_str("@@termlink:memory@@\nMemTotal:  4000 kB\nMemAvailable: 1000 kB\nCached: 500 kB\n");
    text.push_str("@@termlink:disks@@\n/dev/mmcblk0p2 ext4 29G 10G 18G 36% /\n");
    text.push_str("@@termlink:network@@\n  eth0: 5000 1 0 0 0 0 0 0 7000 2 0 0 0 0 0 0\n");
    text.push_str("@@termlink:addresses@@\neth0 10.1.2.3/16\n");
    text.push_str("@@termlink:processes@@\n      2 R\n     98 S\n");
    text
}

#[test]
fn script_prints_a_marker_before_each_command() {
    let text = script();
    assert!(text.starts_with("echo '@@termlink:hostname@@'\nhostname\necho '@@termlink:os@@'\n"));
    assert!(text.ends_with("echo '@@termlink:processes@@'\nps axo stat --no-headers | sort | uniq -c\ntrue\n"));
    let mut from = 0;
    for section in all_sections() {
        let part = format!("echo '{}'\n{}\n", marker_of(section), command_of(section));
        let at = text[from..].find(&part).expect("each section in order");
        assert_eq!(at, 0);
        from += part.len();
    }
    assert_eq!(&text[from..], "true\n");
}

#[test]
fn sections_come_in_script_order_with_markers_of_their_own() {
    let list = all_sections();
    assert_eq!(list.len(), 12);
    assert_eq!(list[0], Section::Hostname);
    assert_eq!(list[11], Section::Processes);
    for (i, a) in list.iter().enumerate() {
        for b in list.iter().skip(i + 1) {
            assert_ne!(marker_of(*a), marker_of(*b));
        }
    }
    assert_eq!(marker_of(Section::CpuStat), "@@termlink:cpu-stat@@");
    assert_eq!(command_of(Section::Network), "cat /proc/net/dev | tail -n +3");
}

#[test]
fn sample_is_read_section_by_section() {
    let mut cache = NetworkSampleCache::new();
    cache.sample("eth0", Sample { rx_bytes: 1000, tx_bytes: 1000, at: 0 });
    let metrics = parse_sample(&output(), &mut cache, 2_000_000);
    assert_eq!(metrics.system.hostname, "web-1");
    assert_eq!(metrics.system.os, "Debian GNU/Linux 12 (bookworm)");
    assert_eq!(metrics.system.arch, "aarch64");
    assert_eq!(metrics.system.kernel, "6.1.0-13");
    assert_eq!(metrics.system.uptime, 86400);
    assert_eq!(metrics.cpu.model, "Cortex-A72");
    assert_eq!(metrics.cpu.usage, 4000);
    assert_eq!(metrics.cpu.cores, core_figures(4000));
    assert_eq!(metrics.memory.total, 4000 * 1024);
    assert_eq!(metrics.memory.used, 3000 * 1024);
    assert_eq!(metrics.memory.cached, 500 * 1024);
    assert_eq!(metrics.memory.usage, 7500);
    assert_eq!(metrics.disks.len(), 1);
    assert_eq!(metrics.disks[0].device, "/dev/mmcblk0p2");
    assert_eq!(metrics.disks[0].total, 29 * G);
    assert_eq!(metrics.disks[0].usage, 3600);
    assert_eq!(metrics.network.len(), 1);
    assert_eq!(metrics.network[0].name, "eth0");
    assert_eq!(metrics.network[0].ip, Some("10.1.2.3".to_string()));
    assert_eq!(metrics.network[0].rx_speed, 2000);
    assert_eq!(metrics.network[0].tx_speed, 3000);
    assert_eq!(metrics.processes, ProcessInfo { total: 100, running: 2, sleeping: 98 });
    assert_eq!(cache.last("eth0"), Some(Sample { rx_bytes: 5000, tx_bytes: 7000, at: 2_000_000 }));
}

#[test]
fn empty_output_gives_the_defaults_throughout() {
    let mut cache = NetworkSampleCache::new();
    let metrics = parse_sample("", &mut cache, 0);
    assert_eq!(metrics.system.hostname, "unknown");
    assert_eq!(metrics.system.os, "Unknown OS");
    assert_eq!(metrics.system.uptime, 0);
    assert_eq!(metrics.cpu.model, "Unknown CPU");
    assert_eq!(metrics.cpu.usage, 0);
    assert_eq!(metrics.memory.total, 16 * G);
    assert_eq!(metrics.disks.len(), 1);
    assert_eq!(metrics.disks[0].device, "/dev/sda1");
    assert_eq!(metrics.network.len(), 1);
    assert_eq!(metrics.network[0].name, "eth0");
    assert_eq!(metrics.processes, ProcessInfo { total: 245, running: 12, sleeping: 233 });
}

#[test]
fn missing_or_empty_sections_fall_back_one_by_one() {
    let text = "@@termlink:hostname@@\n@@termlink:kernel@@\n6.6.1\n@@termlink:processes@@\n 3 R\n";
    let mut cache = NetworkSampleCache::new();
    let metrics = parse_sample(text, &mut cache, 0);
    assert_eq!(metrics.system.hostname, "unknown");
    assert_eq!(metrics.system.kernel, "6.6.1");
    assert_eq!(metrics.system.arch, "unknown");
    assert_eq!(metrics.processes, ProcessInfo { total: 3, running: 3, sleeping: 0 });
    assert_eq!(metrics.disks[0].device, "/dev/sda1");
}

#[test]
fn sections_may_come_in_any_order_and_the_first_marker_counts() {
    let text = "noise\n@@termlink:arch@@\nriscv64\n  @@termlink:hostname@@  \nfirst\nsecond\n@@termlink:hostname@@\nthird\n";
    let mut cache = NetworkSampleCache::new();
    let metrics = parse_sample(text, &mut cache, 0);
    assert_eq!(metrics.system.arch, "riscv64");
    assert_eq!(metrics.system.hostname, "first");
}

#[test]
fn unknown_connection_is_not_found_and_no_sample() {
    let mut cache = NetworkSampleCache::new();
    let kept = Sample { rx_bytes: 1, tx_bytes: 2, at: 3 };
    cache.sample("eth0", kept);
    let failed: Result<String, CoreError> = Err(CoreError::NotFound);
    assert_eq!(sample(failed, &mut cache, 9_000_000), Err(CoreError::NotFound));
    assert_eq!(cache.last("eth0"), Some(kept));
}

#[test]
fn failed_execution_hands_its_error_on() {
    let mut cache = NetworkSampleCache::new();
    for error in [
        CoreError::Transport("no channel".to_string()),
        CoreError::DestinationGone,
        CoreError::RemoteCommand { status: 1, output: "x".to_string() },
    ] {
        assert_eq!(sample(Err(error.clone()), &mut cache, 1), Err(error));
    }
    assert_eq!(cache.last("eth0"), None);
}

#[test]
fn arrived_output_is_a_sample_even_where_it_is_empty() {
    let mut cache = NetworkSampleCache::new();
    let metrics = sample(Ok(String::new()), &mut cache, 0).expect("a sample");
    assert_eq!(metrics.system.hostname, "unknown");
    assert_eq!(metrics.disks[0].device, "/dev/sda1");
}

#[test]
fn successful_execution_is_read_like_its_output() {
    let mut one = NetworkSampleCache::new();
    let mut two = NetworkSampleCache::new();
    assert_eq!(sample(Ok(output()), &mut one, 5), Ok(parse_sample(&output(), &mut two, 5)));
    assert_eq!(one.last("eth0"), two.last("eth0"));
}
