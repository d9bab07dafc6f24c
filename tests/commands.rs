use sysmon::command::{
    help_lines, parse_command, parse_trimmed_command, parse_unsigned, query_lines, query_process, reply_lines,
    Command, NotFound, ProcessDetail,
};
use sysmon::state::TelemetryState;

fn detail() -> ProcessDetail {
    ProcessDetail {
        name: "nginx".to_string(),
        status: "Sleep".to_string(),
        cpu_usage_centi: 1234,
        memory: 1536,
        virtual_memory: 1_073_741_824,
        run_time: 42,
        disk_read_total: 0,
        disk_written_total: 2048,
        cwd: Some("/srv".to_string()),
        exe: None,
    }
}

#[test]
fn process_query_command() {
    assert_eq!(parse_command("p 123"), Command::ShowProcess(123));
    assert_eq!(parse_command("  P   42  "), Command::ShowProcess(42));
    assert_eq!(parse_command("p +7"), Command::ShowProcess(7));
}

#[test]
fn bad_pid_is_reported() {
    assert_eq!(parse_command("p abc"), Command::InvalidPid);
    assert_eq!(parse_command("p -3"), Command::InvalidPid);
    assert_eq!(parse_command("p 18446744073709551616"), Command::InvalidPid);
}

#[test]
fn help_and_unknown_commands() {
    assert_eq!(parse_command(" help "), Command::Help);
    assert_eq!(parse_command("?"), Command::Help);
    assert_eq!(parse_command("   "), Command::Empty);
    assert_eq!(parse_command(" foo bar "), Command::Unknown("foo bar".to_string()));
    assert_eq!(parse_command("p"), Command::Unknown("p".to_string()));
}

#[test]
fn trimmed_command_is_taken_as_is() {
    assert_eq!(parse_trimmed_command(" help"), Command::Unknown(" help".to_string()));
    assert_eq!(parse_trimmed_command("p 9"), Command::ShowProcess(9));
}

#[test]
fn unsigned_parsing() {
    assert_eq!(parse_unsigned("0"), Some(0));
    assert_eq!(parse_unsigned("+15"), Some(15));
    assert_eq!(parse_unsigned("18446744073709551615"), Some(u64::MAX));
    assert_eq!(parse_unsigned("18446744073709551616"), None);
    assert_eq!(parse_unsigned(""), None);
    assert_eq!(parse_unsigned("+"), None);
    assert_eq!(parse_unsigned("12a"), None);
    assert_eq!(parse_unsigned("++1"), None);
}

#[test]
fn absent_pid_is_not_found_and_state_untouched() {
    let mut state = TelemetryState::new();
    state.toggle_pause();
    let before = state.read_snapshot();
    let r = query_process(4242, |_| None);
    assert_eq!(r.unwrap_err(), NotFound { pid: 4242 });
    let after = state.read_snapshot();
    assert_eq!(before.2, after.2);
    assert_eq!(before.0.captured_at, after.0.captured_at);
    assert_eq!(before.1.len(), after.1.len());
}

#[test]
fn present_pid_is_returned() {
    let r = query_process(17, |pid| if pid == 17 { Some(detail()) } else { None });
    assert_eq!(r.unwrap().name, "nginx");
}

#[test]
fn detail_text_lines() {
    let lines = query_lines(17, &Ok(detail()));
    assert_eq!(
        lines,
        vec![
            "Process Details for PID 17:",
            "  Name: nginx",
            "  Status: Sleep",
            "  CPU Usage: 12.34%",
            "  Memory: 1.5 KB",
            "  Virtual Memory: 1.0 GB",
            "  Runtime: 42 seconds",
            "  Disk Read: 0 B",
            "  Disk Write: 2.0 KB",
            "  CWD: /srv",
        ]
    );
}

#[test]
fn detail_with_executable_and_small_cpu() {
    let mut d = detail();
    d.cwd = None;
    d.exe = Some("/usr/bin/nginx".to_string());
    d.cpu_usage_centi = 5;
    let lines = query_lines(1, &Ok(d));
    assert_eq!(lines[3], "  CPU Usage: 0.05%");
    assert_eq!(lines[9], "  Executable: /usr/bin/nginx");
    assert_eq!(lines.len(), 10);
}

#[test]
fn not_found_line() {
    assert_eq!(query_lines(99, &Err(NotFound { pid: 99 })), vec!["Process with PID 99 not found"]);
}

#[test]
fn reply_to_each_command() {
    let none = |_: u64| -> Option<ProcessDetail> { None };
    assert_eq!(reply_lines(&Command::Help, none), help_lines());
    assert_eq!(help_lines()[0], "Available commands:");
    assert_eq!(help_lines().len(), 4);
    assert_eq!(reply_lines(&Command::InvalidPid, none), vec!["Invalid PID format. Usage: p <PID>"]);
    assert_eq!(
        reply_lines(&Command::Unknown("xyz".to_string()), none),
        vec!["Unknown command: 'xyz'. Type 'help' for available commands."]
    );
    assert!(reply_lines(&Command::Empty, none).is_empty());
    assert_eq!(reply_lines(&Command::ShowProcess(5), none), vec!["Process with PID 5 not found"]);
    let found = reply_lines(&Command::ShowProcess(5), |_| Some(detail()));
    assert_eq!(found[0], "Process Details for PID 5:");
}
