use host_telemetry::host::get_system_info;
use host_telemetry::host::read_host;
use host_telemetry::snapshot::CpuReading;
use host_telemetry::snapshot::DiskReading;
use host_telemetry::snapshot::HostReadings;
use host_telemetry::snapshot::NetworkReading;
use host_telemetry::snapshot::build_snapshot;
use host_telemetry::snapshot::cpu_summary;
use host_telemetry::snapshot::disk_summary;
use host_telemetry::snapshot::memory_summary;
use host_telemetry::snapshot::network_summary;

use sysinfo::SystemExt;

fn sample_readings() -> HostReadings {
    HostReadings {
        cpus: vec![
            CpuReading { name: String::from("cpu0"), frequency_mhz: 2400 },
            CpuReading { name: String::from("cpu1"), frequency_mhz: 2401 },
        ],
        total_memory: 2147483648,
        used_memory: 1073741824,
        disks: vec![DiskReading {
            name: String::from("root"),
            available_bytes: 1500000000,
            total_bytes: 1073741824000,
        }],
        networks: vec![
            NetworkReading {
                name: String::from("eth0"),
                received_bytes: 100,
                transmitted_bytes: 200,
                mac: String::from("MacAddr([1, 2, 3, 4, 5, 6])"),
            },
            NetworkReading {
                name: String::from("lo"),
                received_bytes: 5,
                transmitted_bytes: 5,
                mac: String::from("MacAddr([0, 0, 0, 0, 0, 0])"),
            },
        ],
    }
}

#[test]
fn memory_line_exact() {
    assert_eq!(
        memory_summary(2147483648, 1073741824),
        "Total: 2048 MB, Used: 1024 MB"
    );
}

#[test]
fn memory_line_truncates_to_zero() {
    assert_eq!(memory_summary(512000, 0), "Total: 0 MB, Used: 0 MB");
}

#[test]
fn disk_line_truncates() {
    assert_eq!(
        disk_summary("root", 1500000000, 1073741824000),
        "root: 1 GB / 1000 GB"
    );
}

#[test]
fn cpu_line_exact() {
    assert_eq!(cpu_summary("cpu0", 2400), "cpu0: 2400 MHz");
}

#[test]
fn network_line_exact() {
    assert_eq!(
        network_summary(100, 200, "MacAddr([1, 2, 3, 4, 5, 6])"),
        "Received: 100 B, Transmitted: 200 B, MAC: MacAddr([1, 2, 3, 4, 5, 6])"
    );
}

#[test]
fn snapshot_formats_every_category() {
    let snap = build_snapshot(&sample_readings());
    assert_eq!(snap.cpu_summaries, vec!["cpu0: 2400 MHz", "cpu1: 2401 MHz"]);
    assert_eq!(snap.memory_summary, "Total: 2048 MB, Used: 1024 MB");
    assert_eq!(snap.disk_summaries, vec!["root: 1 GB / 1000 GB"]);
    assert_eq!(snap.network_interfaces.len(), 2);
    assert_eq!(snap.network_interfaces[0].0, "eth0");
    assert_eq!(
        snap.network_interfaces[0].1,
        "Received: 100 B, Transmitted: 200 B, MAC: MacAddr([1, 2, 3, 4, 5, 6])"
    );
    assert_eq!(snap.network_interfaces[1].0, "lo");
}

#[test]
fn snapshot_cpu_count_matches_input() {
    let readings = sample_readings();
    let n = readings.cpus.len();
    let snap = build_snapshot(&readings);
    assert_eq!(snap.cpu_summaries.len(), n);
}

#[test]
fn snapshot_empty_categories_stay_empty() {
    let readings = HostReadings {
        cpus: vec![],
        total_memory: 0,
        used_memory: 0,
        disks: vec![],
        networks: vec![],
    };
    let snap = build_snapshot(&readings);
    assert!(snap.cpu_summaries.is_empty());
    assert!(snap.disk_summaries.is_empty());
    assert!(snap.network_interfaces.is_empty());
    assert_eq!(snap.memory_summary, "Total: 0 MB, Used: 0 MB");
}

#[test]
fn duplicate_interface_names_keep_one_entry_last_value() {
    let readings = HostReadings {
        cpus: vec![],
        total_memory: 0,
        used_memory: 0,
        disks: vec![],
        networks: vec![
            NetworkReading {
                name: String::from("eth0"),
                received_bytes: 1,
                transmitted_bytes: 1,
                mac: String::from("m"),
            },
            NetworkReading {
                name: String::from("eth0"),
                received_bytes: 9,
                transmitted_bytes: 9,
                mac: String::from("m"),
            },
        ],
    };
    let snap = build_snapshot(&readings);
    assert_eq!(snap.network_interfaces.len(), 1);
    assert_eq!(snap.network_interfaces[0].0, "eth0");
    assert_eq!(
        snap.network_interfaces[0].1,
        "Received: 9 B, Transmitted: 9 B, MAC: m"
    );
}

#[test]
fn interface_keys_depend_only_on_names() {
    let mut first = sample_readings();
    let snap_before = build_snapshot(&first);
    for n in &mut first.networks {
        n.received_bytes += 1000;
        n.transmitted_bytes += 2000;
    }
    let snap_after = build_snapshot(&first);
    let keys_before: Vec<&String> = snap_before.network_interfaces.iter().map(|p| &p.0).collect();
    let keys_after: Vec<&String> = snap_after.network_interfaces.iter().map(|p| &p.0).collect();
    assert_eq!(keys_before, keys_after);
}

#[test]
fn same_readings_give_identical_snapshots() {
    let readings = sample_readings();
    let a = build_snapshot(&readings);
    let b = build_snapshot(&readings);
    assert_eq!(a.cpu_summaries, b.cpu_summaries);
    assert_eq!(a.memory_summary, b.memory_summary);
    assert_eq!(a.disk_summaries, b.disk_summaries);
    assert_eq!(a.network_interfaces, b.network_interfaces);
}

#[test]
fn live_snapshot_has_one_line_per_core() {
    let snap = get_system_info();
    let sys = sysinfo::System::new_all();
    assert_eq!(snap.cpu_summaries.len(), sys.cpus().len());
}

#[test]
fn live_snapshot_keys_are_unique() {
    let snap = get_system_info();
    for i in 0..snap.network_interfaces.len() {
        for j in (i + 1)..snap.network_interfaces.len() {
            assert_ne!(snap.network_interfaces[i].0, snap.network_interfaces[j].0);
        }
    }
}

#[test]
fn live_snapshot_keys_are_stable_across_calls() {
    let a = get_system_info();
    let b = get_system_info();
    let mut keys_a: Vec<String> = a.network_interfaces.into_iter().map(|p| p.0).collect();
    let mut keys_b: Vec<String> = b.network_interfaces.into_iter().map(|p| p.0).collect();
    keys_a.sort();
    keys_b.sort();
    assert_eq!(keys_a, keys_b);
    assert_eq!(a.cpu_summaries.len(), b.cpu_summaries.len());
    assert_eq!(a.disk_summaries.len(), b.disk_summaries.len());
}

#[test]
fn live_readings_have_distinct_interface_names() {
    let readings = read_host();
    for i in 0..readings.networks.len() {
        for j in (i + 1)..readings.networks.len() {
            assert_ne!(readings.networks[i].name, readings.networks[j].name);
        }
    }
}
