use sysmon::display::{sorted_processes, SortBy};
use sysmon::input::{InputAction, InputState, Key};
use sysmon::names::{contains_chars, is_excluded, is_excluded_lowercase, name_less, starts_with_chars};
use sysmon::network::{InterfaceReading, NetworkSampler};
use sysmon::process::{ProcessRecord, ProcessSampler, SystemReading};
use sysmon::state::TelemetryState;

fn rec(pid: u64, cpu: u64, mem: u64) -> ProcessRecord {
    ProcessRecord {
        name: format!("p{}", pid),
        pid,
        cpu_usage_centi: cpu,
        memory: mem,
        status: "Run".to_string(),
        run_time: 0,
    }
}

fn pids(v: &[ProcessRecord]) -> Vec<u64> {
    v.iter().map(|p| p.pid).collect()
}

#[test]
fn sort_by_each_column() {
    let procs = vec![rec(3, 10, 500), rec(1, 90, 100), rec(2, 50, 900)];
    assert_eq!(pids(&sorted_processes(&procs, SortBy::Cpu)), vec![1, 2, 3]);
    assert_eq!(pids(&sorted_processes(&procs, SortBy::Memory)), vec![2, 3, 1]);
    assert_eq!(pids(&sorted_processes(&procs, SortBy::Pid)), vec![1, 2, 3]);
}

#[test]
fn ties_keep_their_order() {
    let procs = vec![rec(5, 10, 0), rec(4, 20, 0), rec(9, 10, 0), rec(2, 10, 0)];
    assert_eq!(pids(&sorted_processes(&procs, SortBy::Cpu)), vec![4, 5, 9, 2]);
    assert!(sorted_processes(&vec![], SortBy::Pid).is_empty());
}

#[test]
fn exclusion_patterns() {
    assert!(is_excluded("lo"));
    assert!(is_excluded("DOCKER0"));
    assert!(is_excluded("Br-1234"));
    assert!(is_excluded("npcap_if"));
    assert!(is_excluded("my_nocap_if"));
    assert!(!is_excluded("eth0"));
    assert!(!is_excluded("wlan0"));
    assert!(!is_excluded("br0"));
    assert!(is_excluded_lowercase("docker0"));
    assert!(!is_excluded_lowercase("DOCKER0"));
}

#[test]
fn character_searches() {
    assert!(starts_with_chars("docker0", "docker"));
    assert!(!starts_with_chars("dock", "docker"));
    assert!(starts_with_chars("x", ""));
    assert!(contains_chars("abcnpcapxyz", "npcap"));
    assert!(!contains_chars("abcnpca", "npcap"));
}

#[test]
fn name_order() {
    assert!(name_less("eth0", "wlan0"));
    assert!(!name_less("wlan0", "eth0"));
    assert!(name_less("eth", "eth0"));
    assert!(!name_less("eth0", "eth0"));
    assert!(name_less("", "a"));
}

#[test]
fn normal_mode_keys() {
    let mut s = InputState::new();
    assert_eq!(s.sort_by, SortBy::Cpu);
    assert_eq!(s.on_key(Key::Char('m')), InputAction::Nothing);
    assert_eq!(s.sort_by, SortBy::Memory);
    assert_eq!(s.on_key(Key::Char('p')), InputAction::Nothing);
    assert_eq!(s.sort_by, SortBy::Pid);
    assert_eq!(s.on_key(Key::Char('c')), InputAction::Nothing);
    assert_eq!(s.sort_by, SortBy::Cpu);
    assert_eq!(s.on_key(Key::Char(' ')), InputAction::TogglePause);
    assert_eq!(s.on_key(Key::Char('s')), InputAction::TogglePause);
    assert_eq!(s.on_key(Key::Char('x')), InputAction::Nothing);
    assert_eq!(s.on_key(Key::Char('q')), InputAction::Quit);
    assert!(!s.command_mode);
}

#[test]
fn command_mode_editing() {
    let mut s = InputState::new();
    s.on_key(Key::Char(':'));
    assert!(s.command_mode);
    for c in "p 12x".chars() {
        s.on_key(Key::Char(c));
    }
    s.on_key(Key::Backspace);
    assert_eq!(s.command_input, "p 12");
    assert_eq!(s.on_key(Key::Char('q')), InputAction::Nothing);
    s.on_key(Key::Backspace);
    assert_eq!(s.on_key(Key::Enter), InputAction::Run("p 12".to_string()));
    assert!(!s.command_mode);
    assert_eq!(s.command_input, "");
    s.on_key(Key::Char(':'));
    s.on_key(Key::Backspace);
    s.on_key(Key::Char('a'));
    assert_eq!(s.on_key(Key::Esc), InputAction::Nothing);
    assert!(!s.command_mode);
    assert_eq!(s.command_input, "");
}

#[test]
fn shared_state_publish_and_pause() {
    let mut st = TelemetryState::new();
    assert!(!st.is_paused());
    let reading = SystemReading {
        processes: vec![],
        total_cpu_usage_centi: 1,
        total_memory: 2,
        used_memory: 1,
        available_memory: 1,
        total_swap: 0,
        used_swap: 0,
    };
    let mut ps = ProcessSampler::new("cpu".to_string(), &reading, 0);
    let snap = ps.sample(reading, 7);
    st.publish_system(snap);
    let mut ns = NetworkSampler::new(&vec![], 0);
    let net = ns.sample(&vec![InterfaceReading { name: "eth0".to_string(), rx_total: 1, tx_total: 1 }], 7);
    st.publish_network(net);
    st.toggle_pause();
    let (sys, net, paused) = st.read_snapshot();
    assert!(paused);
    assert_eq!(sys.captured_at, 7);
    assert_eq!(sys.cpu_model, "cpu");
    assert_eq!(net.len(), 1);
    assert_eq!(net[0].name, "eth0");
    st.toggle_pause();
    assert!(!st.is_paused());
}
