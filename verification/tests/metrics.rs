use termlink_core::metrics::{
    core_figures, parse_cpu, parse_cpu_usage, parse_disks, parse_interfaces, parse_memory,
    parse_processes, parse_system, ratio, same_text, CpuInfo, DiskInfo, MemoryInfo,
    NetworkInterface, ProcessInfo, SystemInfo, DISPLAYED_CORES,
};
use termlink_core::netrate::{NetworkSampleCache, Sample};

const G: u64 = 1024 * 1024 * 1024;

#[test]
fn cpu_usage_is_busy_time_against_busy_and_idle_time() {
    assert_eq!(parse_cpu_usage("cpu  100 0 100 200 0 0 0 0 0 0"), 5000);
    assert_eq!(parse_cpu_usage("cpu 1 1 2 4"), 5000);
    assert_eq!(parse_cpu_usage("cpu 1 0 0 2"), 3333);
    assert_eq!(parse_cpu_usage("cpu 5 5 5 0"), 10000);
    assert_eq!(parse_cpu_usage("cpu 0 0 0 9"), 0);
}

#[test]
fn cpu_usage_of_an_unreadable_line_is_zero() {
    assert_eq!(parse_cpu_usage("cpu 0 0 0 0 0 0 0 0 0 0"), 0);
    assert_eq!(parse_cpu_usage("cpu 1 2 3"), 0);
    assert_eq!(parse_cpu_usage(""), 0);
}

#[test]
fn cpu_fields_that_are_no_numbers_count_as_zero() {
    assert_eq!(parse_cpu_usage("cpu x 0 100 100"), 5000);
    assert_eq!(parse_cpu_usage("cpu 100 -5 100 200"), 5000);
}

#[test]
fn cpu_usage_does_not_overflow() {
    let max = "18446744073709551615";
    let line = format!("cpu {} {} {} {}", max, max, max, max);
    assert_eq!(parse_cpu_usage(&line), 7500);
}

#[test]
fn core_figures_are_the_usage_plus_a_fixed_offset_per_core() {
    assert_eq!(DISPLAYED_CORES, 8);
    assert_eq!(core_figures(5000), vec![4000, 4730, 5460, 4190, 4920, 5650, 4380, 5110]);
}

#[test]
fn core_figures_stay_between_0_and_100_percent() {
    assert_eq!(core_figures(0), vec![0, 0, 460, 0, 0, 650, 0, 110]);
    assert_eq!(core_figures(10000), vec![9000, 9730, 10000, 9190, 9920, 10000, 9380, 10000]);
    assert_eq!(core_figures(10500), vec![9500, 10000, 10000, 9690, 10000, 10000, 9880, 10000]);
    assert_eq!(core_figures(u64::MAX), vec![10000; 8]);
}

#[test]
fn ratio_is_in_hundredths_of_a_percent() {
    assert_eq!(ratio(1, 3), 3333);
    assert_eq!(ratio(0, 0), 0);
    assert_eq!(ratio(7, 7), 10000);
    assert_eq!(ratio(u64::MAX / 2, u64::MAX), 4999);
    assert_eq!(ratio(3, 2), 15000);
    assert_eq!(ratio(u64::MAX, 1), u64::MAX);
}

#[test]
fn cpu_info_has_the_model_and_the_figures() {
    let info = parse_cpu(" Intel(R) Xeon(R) CPU \n", "cpu  100 0 100 200 0 0 0 0 0 0\n");
    assert_eq!(
        info,
        CpuInfo {
            model: "Intel(R) Xeon(R) CPU".to_string(),
            usage: 5000,
            cores: vec![4000, 4730, 5460, 4190, 4920, 5650, 4380, 5110],
        }
    );
}

#[test]
fn cpu_info_falls_back_on_its_defaults() {
    let info = parse_cpu("", "");
    assert_eq!(info.model, "Unknown CPU");
    assert_eq!(info.usage, 0);
    assert_eq!(info.cores, core_figures(0));
}

#[test]
fn memory_is_read_in_kibibytes() {
    let text = "MemTotal:       16384000 kB\nMemAvailable:    8192000 kB\nCached:          1024000 kB\n";
    assert_eq!(
        parse_memory(text),
        MemoryInfo {
            total: 16_777_216_000,
            used: 8_388_608_000,
            available: 8_388_608_000,
            cached: 1_048_576_000,
            usage: 5000,
        }
    );
}

#[test]
fn memory_falls_back_on_its_defaults() {
    assert_eq!(
        parse_memory(""),
        MemoryInfo {
            total: 17_179_869_184,
            used: 8_589_934_592,
            available: 8_589_934_592,
            cached: 2_147_483_648,
            usage: 5000,
        }
    );
    let partly = parse_memory("MemTotal: lots kB\nMemAvailable: 1024 kB\nSwapCached: 5 kB\n");
    assert_eq!(partly.total, 17_179_869_184);
    assert_eq!(partly.available, 1_048_576);
    assert_eq!(partly.cached, 2_147_483_648);
    assert_eq!(partly.used, 17_179_869_184 - 1_048_576);
    assert_eq!(partly.usage, 9999);
}

#[test]
fn memory_takes_the_first_line_of_each_key() {
    let info = parse_memory("MemTotal: 100 kB\nMemTotal: 200 kB\nMemAvailable: 25 kB\n");
    assert_eq!(info.total, 102_400);
    assert_eq!(info.used, 76_800);
    assert_eq!(info.usage, 7500);
}

#[test]
fn memory_in_use_is_never_negative_and_nothing_overflows() {
    let info = parse_memory("MemTotal: 10 kB\nMemAvailable: 20 kB\n");
    assert_eq!(info.used, 0);
    assert_eq!(info.usage, 0);
    let huge = parse_memory("MemTotal: 18446744073709551615 kB\nMemAvailable: 0 kB\n");
    assert_eq!(huge.total, u64::MAX);
    assert_eq!(huge.used, u64::MAX);
    assert_eq!(huge.usage, 10000);
    let none = parse_memory("MemTotal: 0 kB\nMemAvailable: 0 kB\n");
    assert_eq!(none.usage, 0);
}

#[test]
fn disks_are_read_from_the_usage_table() {
    let text = "/dev/sda1 ext4 500G 375G 100G 79% /\n/dev/sdb1 xfs 1.5T 750G 786G 49% /data\n";
    assert_eq!(
        parse_disks(text),
        vec![
            DiskInfo {
                device: "/dev/sda1".to_string(),
                filesystem: "ext4".to_string(),
                total: 500 * G,
                used: 375 * G,
                mountpoint: "/".to_string(),
                usage: 7900,
            },
            DiskInfo {
                device: "/dev/sdb1".to_string(),
                filesystem: "xfs".to_string(),
                total: 1536 * G,
                used: 750 * G,
                mountpoint: "/data".to_string(),
                usage: 4900,
            },
        ]
    );
}

#[test]
fn short_disk_lines_are_passed_over() {
    let text = "Filesystem Type Size Used\n/dev/sda1 ext4 10G 5G 5G 50% /boot extra\n\n";
    let disks = parse_disks(text);
    assert_eq!(disks.len(), 1);
    assert_eq!(disks[0].mountpoint, "/boot");
    assert_eq!(disks[0].usage, 5000);
}

#[test]
fn disk_usage_that_is_no_number_is_zero() {
    let disks = parse_disks("/dev/sda1 ext4 10G 5G 5G - /\n/dev/sda2 ext4 10G 5G 5G 12.5%% /x\n");
    assert_eq!(disks[0].usage, 0);
    assert_eq!(disks[1].usage, 1250);
}

#[test]
fn default_disk_stands_in_for_an_empty_table() {
    assert_eq!(
        parse_disks(""),
        vec![DiskInfo {
            device: "/dev/sda1".to_string(),
            filesystem: "ext4".to_string(),
            total: 500 * G,
            used: 375 * G,
            mountpoint: "/".to_string(),
            usage: 7500,
        }]
    );
}

#[test]
fn processes_are_counted_by_state() {
    assert_eq!(
        parse_processes("   12 R\n  233 S\n"),
        ProcessInfo { total: 245, running: 12, sleeping: 233 }
    );
    assert_eq!(
        parse_processes("  3 D\n 1 Z\n 2 I\n 4 Ss\n 5 R+\n"),
        ProcessInfo { total: 15, running: 5, sleeping: 9 }
    );
}

#[test]
fn process_lines_that_cannot_be_read_are_passed_over() {
    assert_eq!(
        parse_processes("R\n\n x S\n 7 S\n"),
        ProcessInfo { total: 7, running: 0, sleeping: 7 }
    );
}

#[test]
fn default_process_counts_stand_in_for_an_empty_histogram() {
    let default = ProcessInfo { total: 245, running: 12, sleeping: 233 };
    assert_eq!(parse_processes(""), default);
    assert_eq!(parse_processes("0 R\n"), default);
    assert_eq!(parse_processes("4294967296 R\n"), default);
}

#[test]
fn process_counts_are_held_at_the_largest_number() {
    assert_eq!(
        parse_processes("4294967295 R\n 1 R\n 2 S\n"),
        ProcessInfo { total: u32::MAX, running: u32::MAX, sleeping: 2 }
    );
}

#[test]
fn interfaces_are_read_with_their_addresses_and_rates() {
    let table = "  eth0: 1000 10 0 0 0 0 0 0 2000 20 0 0 0 0 0 0\n    lo: 0 0 0 0 0 0 0 0 0 0 0 0 0 0 0 0\ndummy0: 0 0 0 0 0 0 0 0 0 0 0 0 0 0 0 0\n";
    let addresses = "lo 127.0.0.1/8\neth0 192.168.1.5/24\neth0 10.0.0.1/8\n";
    let mut cache = NetworkSampleCache::new();
    cache.sample("eth0", Sample { rx_bytes: 400, tx_bytes: 2000, at: 1_000_000 });
    let list = parse_interfaces(table, addresses, &mut cache, 3_000_000);
    assert_eq!(
        list,
        vec![
            NetworkInterface {
                name: "eth0".to_string(),
                status: "up".to_string(),
                ip: Some("192.168.1.5".to_string()),
                rx_bytes: 1000,
                tx_bytes: 2000,
                rx_speed: 300,
                tx_speed: 0,
            },
            NetworkInterface {
                name: "lo".to_string(),
                status: "up".to_string(),
                ip: Some("127.0.0.1".to_string()),
                rx_bytes: 0,
                tx_bytes: 0,
                rx_speed: 0,
                tx_speed: 0,
            },
            NetworkInterface {
                name: "dummy0".to_string(),
                status: "down".to_string(),
                ip: None,
                rx_bytes: 0,
                tx_bytes: 0,
                rx_speed: 0,
                tx_speed: 0,
            },
        ]
    );
    assert_eq!(cache.last("eth0"), Some(Sample { rx_bytes: 1000, tx_bytes: 2000, at: 3_000_000 }));
    assert_eq!(cache.last("lo"), Some(Sample { rx_bytes: 0, tx_bytes: 0, at: 3_000_000 }));
    assert_eq!(cache.last("dummy0"), Some(Sample { rx_bytes: 0, tx_bytes: 0, at: 3_000_000 }));
}

#[test]
fn interface_lines_without_a_colon_or_with_few_fields_are_passed_over() {
    let table = "Inter-|   Receive\neth0 1 2 3 4 5 6 7 8 9\neth1: 1 2 3 4 5 6 7 8\neth2:1 2 3 4 5 6 7 8 9\n";
    let mut cache = NetworkSampleCache::new();
    let list = parse_interfaces(table, "", &mut cache, 0);
    assert_eq!(list.len(), 1);
    assert_eq!(list[0].name, "eth2");
    assert_eq!(list[0].rx_bytes, 1);
    assert_eq!(list[0].tx_bytes, 9);
    assert_eq!(list[0].ip, None);
    assert_eq!(cache.last("eth1"), None);
}

#[test]
fn default_interface_stands_in_for_an_empty_table() {
    let mut cache = NetworkSampleCache::new();
    let list = parse_interfaces("", "", &mut cache, 0);
    assert_eq!(
        list,
        vec![NetworkInterface {
            name: "eth0".to_string(),
            status: "up".to_string(),
            ip: Some("192.168.1.100".to_string()),
            rx_bytes: 5 * G,
            tx_bytes: 3 * G,
            rx_speed: 0,
            tx_speed: 0,
        }]
    );
    assert_eq!(cache.last("eth0"), None);
}

#[test]
fn interface_sampled_twice_in_one_table_is_measured_against_itself() {
    let table = "eth0: 10 0 0 0 0 0 0 0 10 0\neth0: 20 0 0 0 0 0 0 0 20 0\n";
    let mut cache = NetworkSampleCache::new();
    cache.sample("eth0", Sample { rx_bytes: 0, tx_bytes: 0, at: 0 });
    let list = parse_interfaces(table, "", &mut cache, 1_000_000);
    assert_eq!(list[0].rx_speed, 10);
    assert_eq!(list[1].rx_speed, 0);
    assert_eq!(cache.last("eth0").map(|s| s.rx_bytes), Some(20));
}

#[test]
fn system_info_is_read_from_five_outputs() {
    let info = parse_system("web-1\n", "Ubuntu 22.04.3 LTS\n", " x86_64 ", "5.15.0-91\n", "12345.67\n");
    assert_eq!(
        info,
        SystemInfo {
            hostname: "web-1".to_string(),
            os: "Ubuntu 22.04.3 LTS".to_string(),
            arch: "x86_64".to_string(),
            kernel: "5.15.0-91".to_string(),
            uptime: 12345,
        }
    );
}

#[test]
fn system_info_falls_back_on_its_defaults() {
    let info = parse_system("", "  \n", "", "\n", "soon");
    assert_eq!(
        info,
        SystemInfo {
            hostname: "unknown".to_string(),
            os: "Unknown OS".to_string(),
            arch: "unknown".to_string(),
            kernel: "unknown".to_string(),
            uptime: 0,
        }
    );
}

#[test]
fn texts_are_the_same_when_their_characters_are() {
    let a: Vec<char> = "abc".chars().collect();
    let b: Vec<char> = "abc".chars().collect();
    let c: Vec<char> = "abd".chars().collect();
    let d: Vec<char> = "ab".chars().collect();
    assert!(same_text(&a, &b));
    assert!(!same_text(&a, &c));
    assert!(!same_text(&a, &d));
    assert!(same_text(&Vec::new(), &Vec::new()));
}
