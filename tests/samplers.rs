use sysmon::network::{InterfaceReading, NetworkSampler};
use sysmon::process::{ProcessReading, ProcessRecord, ProcessSampler, SystemReading};

const SEC: u64 = 1_000_000_000;

fn proc_reading(pid: u64, read: u64, written: u64) -> ProcessReading {
    ProcessReading {
        record: ProcessRecord {
            name: format!("proc{}", pid),
            pid,
            cpu_usage_centi: 150,
            memory: 4096,
            status: "Run".to_string(),
            run_time: 12,
        },
        disk_read_total: read,
        disk_written_total: written,
    }
}

fn system(procs: Vec<ProcessReading>) -> SystemReading {
    SystemReading {
        processes: procs,
        total_cpu_usage_centi: 2500,
        total_memory: 8000,
        used_memory: 3000,
        available_memory: 5000,
        total_swap: 100,
        used_swap: 10,
    }
}

fn iface(name: &str, rx: u64, tx: u64) -> InterfaceReading {
    InterfaceReading { name: name.to_string(), rx_total: rx, tx_total: tx }
}

#[test]
fn disk_rate_end_to_end() {
    let mut s = ProcessSampler::new("Test CPU".to_string(), &system(vec![proc_reading(1, 1000, 0)]), 0);
    let snap = s.sample(system(vec![proc_reading(1, 1500, 0)]), SEC);
    assert_eq!(snap.disk_read.bytes_per_sec(), 500);
    let snap = s.sample(system(vec![proc_reading(1, 1400, 0)]), 2 * SEC);
    assert_eq!(snap.disk_read.bytes_per_sec(), 0);
    assert_eq!(snap.disk_read.delta, 0);
}

#[test]
fn disk_totals_sum_over_processes() {
    let first = system(vec![proc_reading(1, 100, 10), proc_reading(2, 200, 20)]);
    let mut s = ProcessSampler::new("cpu".to_string(), &first, 0);
    let snap = s.sample(system(vec![proc_reading(1, 400, 30), proc_reading(2, 500, 60)]), 2 * SEC);
    assert_eq!(snap.disk_read.delta, 600);
    assert_eq!(snap.disk_read.bytes_per_sec(), 300);
    assert_eq!(snap.disk_write.delta, 60);
    assert_eq!(snap.disk_write.bytes_per_sec(), 30);
}

#[test]
fn snapshot_carries_reading() {
    let mut s = ProcessSampler::new("Model X".to_string(), &system(vec![]), 0);
    let snap = s.sample(system(vec![proc_reading(7, 0, 0), proc_reading(3, 0, 0)]), 5);
    assert_eq!(snap.cpu_model, "Model X");
    assert_eq!(snap.processes.len(), 2);
    assert_eq!(snap.processes[0].pid, 7);
    assert_eq!(snap.processes[1].pid, 3);
    assert_eq!(snap.processes[0].name, "proc7");
    assert_eq!(snap.total_cpu_usage_centi, 2500);
    assert_eq!(snap.total_memory, 8000);
    assert_eq!(snap.used_memory, 3000);
    assert_eq!(snap.available_memory, 5000);
    assert_eq!(snap.total_swap, 100);
    assert_eq!(snap.used_swap, 10);
    assert_eq!(snap.captured_at, 5);
}

#[test]
fn paused_cycles_do_not_read_or_move_baseline() {
    let mut paused = ProcessSampler::new("cpu".to_string(), &system(vec![proc_reading(1, 1000, 0)]), 0);
    let mut plain = ProcessSampler::new("cpu".to_string(), &system(vec![proc_reading(1, 1000, 0)]), 0);
    for _ in 0..5 {
        let r = paused.cycle(true, || -> (SystemReading, u64) { panic!("probe read while paused") });
        assert!(r.is_none());
    }
    let a = paused.cycle(false, || (system(vec![proc_reading(1, 3000, 0)]), 4 * SEC)).unwrap();
    let b = plain.cycle(false, || (system(vec![proc_reading(1, 3000, 0)]), 4 * SEC)).unwrap();
    assert_eq!(a.disk_read, b.disk_read);
    assert_eq!(a.disk_read.bytes_per_sec(), 500);
}

#[test]
fn docker_interface_never_published() {
    let mut s = NetworkSampler::new(&vec![iface("docker0", 0, 0), iface("eth0", 0, 0)], 0);
    let out = s.sample(&vec![iface("docker0", 999_999, 999_999), iface("eth0", 100, 50)], SEC);
    let names: Vec<&str> = out.iter().map(|r| r.name.as_str()).collect();
    assert_eq!(names, vec!["eth0"]);
}

#[test]
fn virtual_interfaces_excluded_case_insensitively() {
    let mut s = NetworkSampler::new(&vec![], 0);
    let out = s.sample(
        &vec![
            iface("lo", 1, 1),
            iface("Docker0", 1, 1),
            iface("veth12", 1, 1),
            iface("br-abc", 1, 1),
            iface("virbr0", 1, 1),
            iface("NPF_Npcap_Loopback", 1, 1),
            iface("enp3s0", 1, 1),
        ],
        SEC,
    );
    assert_eq!(out.len(), 1);
    assert_eq!(out[0].name, "enp3s0");
}

#[test]
fn interfaces_in_descending_name_order() {
    let mut s = NetworkSampler::new(&vec![iface("eth0", 0, 0), iface("wlan0", 0, 0)], 0);
    let out = s.sample(&vec![iface("eth0", 10, 10), iface("wlan0", 20, 20)], SEC);
    let names: Vec<&str> = out.iter().map(|r| r.name.as_str()).collect();
    assert_eq!(names, vec!["wlan0", "eth0"]);
}

#[test]
fn interface_rates_against_previous_totals() {
    let mut s = NetworkSampler::new(&vec![iface("eth0", 1000, 2000)], 0);
    let out = s.sample(&vec![iface("eth0", 3000, 2500)], 2 * SEC);
    assert_eq!(out[0].rx_total, 3000);
    assert_eq!(out[0].tx_total, 2500);
    assert_eq!(out[0].rx_rate.bytes_per_sec(), 1000);
    assert_eq!(out[0].tx_rate.bytes_per_sec(), 250);
    let out = s.sample(&vec![iface("eth0", 100, 2500)], 3 * SEC);
    assert_eq!(out[0].rx_rate.bytes_per_sec(), 0);
    assert_eq!(out[0].tx_rate.bytes_per_sec(), 0);
}

#[test]
fn new_interface_starts_at_zero_rate() {
    let mut s = NetworkSampler::new(&vec![iface("eth0", 0, 0)], 0);
    let out = s.sample(&vec![iface("eth0", 0, 0), iface("wlan1", 5_000_000, 7_000_000)], SEC);
    let w = out.iter().find(|r| r.name == "wlan1").unwrap();
    assert_eq!(w.rx_rate.bytes_per_sec(), 0);
    assert_eq!(w.tx_rate.bytes_per_sec(), 0);
    let out = s.sample(&vec![iface("wlan1", 5_001_000, 7_000_000)], 2 * SEC);
    assert_eq!(out[0].rx_rate.bytes_per_sec(), 1000);
}

#[test]
fn paused_network_cycles_keep_baseline() {
    let mut s = NetworkSampler::new(&vec![iface("eth0", 0, 0)], 0);
    for _ in 0..3 {
        let r = s.cycle(true, || -> (Vec<InterfaceReading>, u64) { panic!("probe read while paused") });
        assert!(r.is_none());
    }
    let out = s.cycle(false, || (vec![iface("eth0", 4000, 0)], 4 * SEC)).unwrap();
    assert_eq!(out[0].rx_rate.bytes_per_sec(), 1000);
}

#[test]
fn same_reading_twice_at_same_instant() {
    let first = system(vec![proc_reading(1, 5000, 6000)]);
    let mut s = ProcessSampler::new("cpu".to_string(), &first, SEC);
    let snap = s.sample(system(vec![proc_reading(1, 5000, 6000)]), SEC);
    assert_eq!(snap.disk_read.bytes_per_sec(), 0);
    assert_eq!(snap.disk_write.bytes_per_sec(), 0);
    assert_eq!(snap.disk_read.elapsed_nanos, 1);
}

#[test]
fn clock_reading_earlier_counts_as_no_time() {
    let mut s = ProcessSampler::new("cpu".to_string(), &system(vec![proc_reading(1, 0, 0)]), 5 * SEC);
    let snap = s.sample(system(vec![proc_reading(1, 0, 0)]), SEC);
    assert_eq!(snap.disk_read.elapsed_nanos, 1);
    assert_eq!(snap.disk_read.bytes_per_sec(), 0);
}
