use gub_wire::logging::{level_enabled, level_prefix, log_line, verbosity_filter, Level, LevelFilter};
use gub_wire::machine::MachineStatus;
use gub_wire::memory::Memory;
use gub_wire::protocol::ClientMsg;
use gub_wire::server::{JobDone, MutableClientState, PendingJobs};

#[test]
fn verbosity_levels() {
    assert_eq!(verbosity_filter(0, 0), LevelFilter::Error);
    assert_eq!(verbosity_filter(0, 1), LevelFilter::Off);
    assert_eq!(verbosity_filter(0, 5), LevelFilter::Off);
    assert_eq!(verbosity_filter(1, 0), LevelFilter::Warn);
    assert_eq!(verbosity_filter(2, 0), LevelFilter::Info);
    assert_eq!(verbosity_filter(3, 0), LevelFilter::Debug);
    assert_eq!(verbosity_filter(4, 0), LevelFilter::Trace);
    assert_eq!(verbosity_filter(9, 0), LevelFilter::Trace);
    assert_eq!(verbosity_filter(3, 2), LevelFilter::Warn);
}

#[test]
fn levels_pass_filters() {
    assert!(level_enabled(Level::Error, LevelFilter::Error));
    assert!(!level_enabled(Level::Warn, LevelFilter::Error));
    assert!(!level_enabled(Level::Error, LevelFilter::Off));
    assert!(level_enabled(Level::Info, LevelFilter::Trace));
    assert!(level_enabled(Level::Trace, LevelFilter::Trace));
    assert!(!level_enabled(Level::Trace, LevelFilter::Debug));
}

#[test]
fn log_lines() {
    assert_eq!(level_prefix(Level::Debug), "[DEBUG]");
    assert_eq!(
        log_line(Level::Error, "gub_server", "boom"),
        "[\x1b[31;1mERROR\x1b[0m] [gub_server]: boom"
    );
    assert_eq!(
        log_line(Level::Warn, "t", "m"),
        "[\x1b[33;1mWARN \x1b[0m] [t]: m"
    );
    assert_eq!(log_line(Level::Info, "t", ""), "[\x1b[37;1mINFO \x1b[0m] [t]: ");
    assert_eq!(log_line(Level::Trace, "", "x"), "[\x1b[2mTRACE\x1b[0m] []: x");
}

#[test]
fn pending_jobs_hand_back_channels() {
    let mut p: PendingJobs<&str> = PendingJobs::new();
    assert_eq!(p.take(1), None);
    p.register(1, "one");
    p.register(2, "two");
    assert_eq!(p.take(1), Some("one"));
    assert_eq!(p.take(1), None);
    p.register(2, "again");
    assert_eq!(p.take(2), Some("again"));
    assert_eq!(p.take(2), None);
}

#[test]
fn client_state_follows_messages() {
    let mut s: MutableClientState<u32, &str> = MutableClientState::new(10);
    assert!(s.shutdown.is_none());
    assert_eq!(s.last_heard_from, 10);
    assert_eq!(s.status.avg_avail_cpu, 0);

    let status = MachineStatus { mem_used: Memory::from_mebibytes(3), avg_avail_cpu: 900 };
    assert_eq!(s.on_client_msg(ClientMsg::Status(status), 11, "t11"), None);
    assert_eq!(s.status.avg_avail_cpu, 900);
    assert_eq!(s.status.mem_used, Memory::from_mebibytes(3));
    assert_eq!(s.last_heard_from, 11);

    let done = s.on_client_msg(ClientMsg::JobDone { id: 4, success: true, code: Some(0) }, 12, "t12");
    assert_eq!(done, Some((4, JobDone { success: true, code: Some(0) })));
    assert_eq!(s.last_heard_from, 12);
    assert_eq!(s.status.avg_avail_cpu, 900);

    s.on_job_sent(13);
    assert_eq!(s.last_heard_from, 13);

    assert_eq!(s.on_client_msg(ClientMsg::Shutdown, 14, "t14"), None);
    assert_eq!(s.shutdown, Some("t14"));
    assert_eq!(s.last_heard_from, 14);
}
