use gub_wire::protocol::{encode_frame, frame_length, ClientMsg};
use gub_wire::systemd::{
    active_state_step, exec_start_argv, exit_code, job_outcome, job_removed_step, sd_job_result,
    sd_unit_active_state, unit_name, ActiveState, DoneState, JobStartError, UnitStateError,
};
use gub_wire::util::Truncate;

#[test]
fn frames_carry_length_then_payload() {
    let f = encode_frame(b"hello").unwrap();
    assert_eq!(f, vec![5, 0, 0, 0, b'h', b'e', b'l', b'l', b'o']);
    assert_eq!(frame_length(&f[..4]), 5);
    assert_eq!(&f[4..], b"hello");
    let big = vec![7u8; 70000];
    let g = encode_frame(&big).unwrap();
    assert_eq!(&g[..4], &[0x70, 0x11, 0x01, 0x00]);
    assert_eq!(frame_length(&g[..4]) as usize, big.len());
    assert_eq!(encode_frame(&[]).unwrap(), vec![0, 0, 0, 0]);
    assert_eq!(frame_length(&[0xff, 0xff, 0xff, 0xff]), u32::MAX);
}

#[test]
fn job_done_reports() {
    match ClientMsg::job_done(7, Some((true, Some(0)))) {
        ClientMsg::JobDone { id, success, code } => {
            assert_eq!((id, success, code), (7, true, Some(0)));
        }
        _ => panic!("expected a finished job"),
    }
    match ClientMsg::job_done(8, None) {
        ClientMsg::JobDone { id, success, code } => {
            assert_eq!((id, success, code), (8, false, None));
        }
        _ => panic!("expected a finished job"),
    }
}

#[test]
fn start_job_results() {
    assert!(sd_job_result("done").is_ok());
    assert!(matches!(sd_job_result("canceled"), Err(JobStartError::Canceled)));
    assert!(matches!(sd_job_result("timeout"), Err(JobStartError::Timeout)));
    assert!(matches!(sd_job_result("failed"), Err(JobStartError::Failed)));
    assert!(matches!(sd_job_result("dependency"), Err(JobStartError::Dependency)));
    assert!(matches!(sd_job_result("skipped"), Err(JobStartError::Skipped)));
    match sd_job_result("weird") {
        Err(JobStartError::Unexpected(s)) => assert_eq!(s, "weird"),
        _ => panic!("expected an unexpected result"),
    }
}

#[test]
fn start_error_messages() {
    assert_eq!(JobStartError::Canceled.message(), "canceled via systemd before starting");
    assert_eq!(JobStartError::Timeout.message(), "timed out via systemd before starting");
    assert_eq!(JobStartError::Failed.message(), "failed to start");
    assert_eq!(
        JobStartError::Dependency.message(),
        "failed to start because a dependency failed"
    );
    assert_eq!(JobStartError::Skipped.message(), "skipped by systemd before starting");
    assert_eq!(
        JobStartError::Unexpected("we\"ird".into()).message(),
        "unexpected result from systemd: \"we\\\"ird\""
    );
}

#[test]
fn unit_active_states() {
    assert_eq!(sd_unit_active_state("active").ok(), Some(ActiveState::Active));
    assert_eq!(sd_unit_active_state("activating").ok(), Some(ActiveState::Active));
    assert_eq!(sd_unit_active_state("deactivating").ok(), Some(ActiveState::Active));
    assert_eq!(
        sd_unit_active_state("inactive").ok(),
        Some(ActiveState::Done(DoneState::Inactive))
    );
    assert_eq!(sd_unit_active_state("failed").ok(), Some(ActiveState::Done(DoneState::Failed)));
    match sd_unit_active_state("reloading") {
        Err(e @ UnitStateError::Unhandled(_)) => assert_eq!(
            e.message(),
            "unhandled unit active state from systemd: reloading (I wasn't expecting to see it)"
        ),
        _ => panic!("expected an unhandled state"),
    }
    assert!(matches!(sd_unit_active_state("maintenance"), Err(UnitStateError::Unhandled(_))));
    assert!(matches!(sd_unit_active_state("refreshing"), Err(UnitStateError::Unhandled(_))));
    match sd_unit_active_state("zombie") {
        Err(e @ UnitStateError::Unexpected(_)) => assert_eq!(
            e.message(),
            "unexpected unit active state from systemd: \"zombie\""
        ),
        _ => panic!("expected an unexpected state"),
    }
}

#[test]
fn unit_names_and_command_lines() {
    assert_eq!(unit_name(0), "gubernator_job-0.service");
    assert_eq!(unit_name(123), "gubernator_job-123.service");
    assert_eq!(unit_name(u64::MAX), "gubernator_job-18446744073709551615.service");
    assert_eq!(exec_start_argv("echo hi"), vec!["/usr/bin/env", "bash", "-c", "echo hi"]);
}

#[test]
fn exit_codes_and_outcomes() {
    assert_eq!(exit_code(0), Some(0));
    assert_eq!(exit_code(3), Some(3));
    assert_eq!(exit_code(257), Some(1));
    assert_eq!(exit_code(-1), None);
    assert_eq!(job_outcome(DoneState::Inactive, 0), (true, Some(0)));
    assert_eq!(job_outcome(DoneState::Failed, 2), (false, Some(2)));
    assert_eq!(job_outcome(DoneState::Failed, -5), (false, None));
}

#[test]
fn truncate_passes_short_text() {
    let mut t = Truncate::new(20);
    assert_eq!(t.write_str("\"ab\""), "\"ab\"");
    assert!(!t.is_cut());
    assert_eq!(t.write_str("cd"), "cd");
}

#[test]
fn truncate_closes_quote_at_cut() {
    let mut t = Truncate::new(10);
    assert_eq!(t.write_str("\"hello world\""), "\"hello w\"...");
    assert!(t.is_cut());
    assert_eq!(t.write_str("more"), "");
}

#[test]
fn truncate_finishes_escape_at_cut() {
    let mut t = Truncate::new(5);
    assert_eq!(t.write_str("\"a\\nb\""), "\"a\\n\"...");
    let mut tiny = Truncate::new(1);
    assert_eq!(tiny.write_str("abc"), "");
    let mut two = Truncate::new(2);
    assert_eq!(two.write_str("abc"), "...");
}

#[test]
fn truncate_across_writes() {
    let mut t = Truncate::new(8);
    assert_eq!(t.write_str("\"ab"), "\"ab");
    assert_eq!(t.write_str("cdefgh\""), "cde\"...");
    assert!(t.is_cut());
}

#[test]
fn start_wait_steps() {
    assert!(job_removed_step(false, "done").is_none());
    assert!(job_removed_step(false, "failed").is_none());
    assert!(matches!(job_removed_step(true, "done"), Some(Ok(()))));
    assert!(matches!(job_removed_step(true, "timeout"), Some(Err(JobStartError::Timeout))));
    match job_removed_step(true, "odd") {
        Some(Err(JobStartError::Unexpected(s))) => assert_eq!(s, "odd"),
        _ => panic!("expected an unexpected result"),
    }
}

#[test]
fn stop_wait_steps() {
    assert_eq!(active_state_step("active").ok(), Some(None));
    assert_eq!(active_state_step("deactivating").ok(), Some(None));
    assert_eq!(active_state_step("inactive").ok(), Some(Some(DoneState::Inactive)));
    assert_eq!(active_state_step("failed").ok(), Some(Some(DoneState::Failed)));
    assert!(matches!(active_state_step("reloading"), Err(UnitStateError::Unhandled(_))));
    assert!(matches!(active_state_step("zombie"), Err(UnitStateError::Unexpected(_))));
}
