use systemd_services::status::parse_status;
use systemd_services::systemd::{
    get_service_status, ProcessOutput, ServiceError, ServiceStatus,
};

fn status(report: &str) -> ServiceStatus {
    parse_status("demo.service", report)
}

#[test]
fn full_report_is_read() {
    assert_eq!(
        status("ActiveState=active\nSubState=running\nMainPID=1234\n"),
        ServiceStatus {
            name: "demo.service".to_string(),
            active: true,
            running: true,
            pid: Some(1234),
        }
    );
}

#[test]
fn empty_report_gives_the_defaults() {
    assert_eq!(
        status(""),
        ServiceStatus { name: "demo.service".to_string(), active: false, running: false, pid: None }
    );
}

#[test]
fn inactive_and_dead_are_not_active_or_running() {
    let s = status("ActiveState=inactive\nSubState=dead\nMainPID=0\n");
    assert!(!s.active);
    assert!(!s.running);
    assert_eq!(s.pid, Some(0));
}

#[test]
fn states_are_compared_exactly() {
    assert!(!status("ActiveState=Active").active);
    assert!(!status("ActiveState=active ").active);
    assert!(!status(" ActiveState=active").active);
    assert!(!status("SubState=Running").running);
    assert!(status("SubState=running").running);
}

#[test]
fn last_line_of_a_key_decides() {
    assert!(!status("ActiveState=active\nActiveState=failed\n").active);
    assert!(status("ActiveState=failed\nActiveState=active\n").active);
    assert_eq!(status("MainPID=1\nMainPID=2\n").pid, Some(2));
}

#[test]
fn unreadable_pid_keeps_the_one_before() {
    assert_eq!(status("MainPID=7\nMainPID=none\n").pid, Some(7));
    assert_eq!(status("MainPID=\n").pid, None);
    assert_eq!(status("MainPID=-1\n").pid, None);
    assert_eq!(status("MainPID=12a\n").pid, None);
    assert_eq!(status("MainPID= 12\n").pid, None);
    assert_eq!(status("MainPID=+\n").pid, None);
}

#[test]
fn pid_grammar_and_range() {
    assert_eq!(status("MainPID=+12").pid, Some(12));
    assert_eq!(status("MainPID=007").pid, Some(7));
    assert_eq!(status("MainPID=4294967295").pid, Some(4294967295));
    assert_eq!(status("MainPID=4294967296").pid, None);
    assert_eq!(status("MainPID=99999999999999999999999").pid, None);
}

#[test]
fn repeated_key_in_front_of_a_value_is_removed() {
    assert!(status("ActiveState=ActiveState=active").active);
    assert_eq!(status("MainPID=MainPID=MainPID=5").pid, Some(5));
}

#[test]
fn carriage_return_before_a_newline_is_not_part_of_the_line() {
    let s = status("ActiveState=active\r\nSubState=running\r\nMainPID=9\r\n");
    assert!(s.active);
    assert!(s.running);
    assert_eq!(s.pid, Some(9));
}

#[test]
fn carriage_return_without_a_newline_stays() {
    assert!(!status("ActiveState=active\r").active);
}

#[test]
fn other_lines_are_skipped() {
    let s = status("Id=demo.service\n\nActiveState=active\nFoo\nSubState=exited\n");
    assert!(s.active);
    assert!(!s.running);
    assert_eq!(s.pid, None);
}

#[test]
fn status_query_reads_the_output() {
    let run = Ok(ProcessOutput {
        exit_success: true,
        stdout: b"ActiveState=active\nSubState=running\nMainPID=42\n".to_vec(),
        stderr: Vec::new(),
    });
    assert_eq!(
        get_service_status("demo.service", run),
        Ok(ServiceStatus {
            name: "demo.service".to_string(),
            active: true,
            running: true,
            pid: Some(42),
        })
    );
}

#[test]
fn status_query_reports_failures() {
    assert_eq!(
        get_service_status("demo.service", Err("No such file or directory".to_string())),
        Err(ServiceError::SpawnFailure("No such file or directory".to_string()))
    );
    let run = Ok(ProcessOutput {
        exit_success: false,
        stdout: b"ActiveState=active\n".to_vec(),
        stderr: b"Unit demo.service could not be found.\n".to_vec(),
    });
    assert_eq!(
        get_service_status("demo.service", run),
        Err(ServiceError::ExitFailure("Unit demo.service could not be found.\n".to_string()))
    );
    let run = Ok(ProcessOutput { exit_success: false, stdout: Vec::new(), stderr: Vec::new() });
    assert_eq!(
        get_service_status("demo.service", run),
        Err(ServiceError::ExitFailure("systemctl command failed".to_string()))
    );
}

#[test]
fn status_query_reads_bytes_that_are_no_text() {
    let run = Ok(ProcessOutput {
        exit_success: true,
        stdout: b"ActiveState=active\xff\nSubState=running\n".to_vec(),
        stderr: Vec::new(),
    });
    let s = get_service_status("demo.service", run).unwrap();
    assert!(!s.active);
    assert!(s.running);
}
