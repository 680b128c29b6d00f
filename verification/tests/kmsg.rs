use nvrc::daemon::FABRIC_MARKER;
use nvrc::kmsg::{
    kernlog_setup, kmsg, open_kmsg, wait_for_kmsg_count, wait_for_marker, LogSetup, OpenEvent,
    OpenStage, ReadOutcome, Source, Wait, WaitAction, WaitEvent, WaitStage, SOCKET_BUFFER_SIZE,
    SYSLOG_FILE_PATH,
};

const SECOND: u128 = 1_000_000_000;

const OPEN: WaitAction = WaitAction::OpenKmsg("/dev/kmsg");

fn line(s: &str) -> ReadOutcome {
    ReadOutcome::Line(s.to_string())
}

/// Runs a wait on what each turn finds: the nanoseconds so far and the read.
fn run(wait: &mut Wait, turns: Vec<(u128, ReadOutcome)>) -> WaitAction {
    let mut action = wait.next(&WaitEvent::Begun);
    if let WaitAction::OpenKmsg(_) = action {
        assert_eq!(wait.source, Source::Kmsg);
        action = wait.next(&WaitEvent::Opened);
    }
    for (elapsed, read) in turns {
        if let WaitAction::Sleep(_) = action {
            action = wait.next(&WaitEvent::Slept);
        }
        match action {
            WaitAction::Turn { drain } => assert_eq!(drain, wait.source == Source::Log),
            other => return other,
        }
        action = wait.next(&WaitEvent::Turn(elapsed));
        if action != WaitAction::Read {
            return action;
        }
        action = wait.next(&WaitEvent::Read(read));
    }
    action
}

// === Routing and setup ===

#[test]
fn test_kmsg_routes_to_dev_null_when_log_off() {
    assert_eq!(kmsg(false), "/dev/null");
}

#[test]
fn test_kmsg_routes_to_kmsg_when_debug() {
    assert_eq!(kmsg(true), "/dev/kmsg");
}

#[test]
fn test_kernlog_setup() {
    const PATHS: [&str; 4] = [
        "/proc/sys/net/core/rmem_default",
        "/proc/sys/net/core/wmem_default",
        "/proc/sys/net/core/rmem_max",
        "/proc/sys/net/core/wmem_max",
    ];
    let steps = kernlog_setup(false);
    assert_eq!(steps[0], LogSetup::InitLogger);
    assert_eq!(steps[1], LogSetup::SilenceLog);
    assert_eq!(steps.len(), 6);
    for i in 0..4 {
        assert_eq!(
            steps[2 + i],
            LogSetup::WriteFile {
                path: PATHS[i],
                contents: "16777216",
            }
        );
    }
    assert_eq!(SOCKET_BUFFER_SIZE, "16777216");
}

#[test]
fn the_logger_is_initialized_once() {
    let steps = kernlog_setup(true);
    assert_eq!(steps[0], LogSetup::SilenceLog);
    assert_eq!(steps.len(), 5);
}

// === Opening a log ===

#[test]
fn the_kernel_log_is_read_from_the_syslog_file() {
    assert_eq!(open_kmsg("/dev/kmsg").path, "/run/syslog.log");
    assert_eq!(open_kmsg("/dev/kms").path, "/dev/kms");
    assert_eq!(SYSLOG_FILE_PATH, "/run/syslog.log");
}

#[test]
fn a_missing_log_is_created_and_opened() {
    let mut log = open_kmsg("/dev/kmsg");
    assert_eq!(log.stage, OpenStage::Opening);
    log.advance(OpenEvent::NotFound);
    assert_eq!(log.stage, OpenStage::Creating);
    assert_eq!(log.mode, 0o600);
    log.advance(OpenEvent::Succeeded);
    assert_eq!(log.stage, OpenStage::Reopening);
    log.advance(OpenEvent::Succeeded);
    assert_eq!(log.stage, OpenStage::Open);
}

#[test]
fn a_log_that_cannot_be_read_is_not_created() {
    let mut log = open_kmsg("/x");
    log.advance(OpenEvent::Failed);
    assert_eq!(log.stage, OpenStage::Failed);
    let mut log = open_kmsg("/x");
    log.advance(OpenEvent::Succeeded);
    assert_eq!(log.stage, OpenStage::Open);
}

#[test]
fn test_wait_for_marker_nonexistent_file_panics() {
    let mut log = open_kmsg("/nonexistent/path");
    log.advance(OpenEvent::NotFound);
    log.advance(OpenEvent::NotFound);
    assert_eq!(log.stage, OpenStage::Failed);
}

// === Waiting for a marker ===

#[test]
fn test_wait_for_marker_finds_marker() {
    let mut wait = wait_for_marker("FM starting NvLink Inband", 5);
    let end = run(
        &mut wait,
        vec![
            (0, line("some noise\n")),
            (0, line("FM starting NvLink Inband foo\n")),
            (0, line("more noise\n")),
        ],
    );
    assert_eq!(end, WaitAction::Done);
    assert_eq!(wait.seen, 1);
}

#[test]
fn a_match_in_a_log_is_logged_as_the_marker() {
    let wait = wait_for_marker("m", 5);
    let message = |event: WaitEvent| wait.message(&event);
    assert_eq!(message(WaitEvent::Begun), None);
    assert_eq!(message(WaitEvent::Read(line("no\n"))), None);
    assert_eq!(message(WaitEvent::Read(line("a m\n"))), Some("m".to_string()));
}

#[test]
fn test_wait_for_marker_finds_marker_at_end() {
    let mut wait = wait_for_marker("FM starting NvLink Inband", 5);
    let end = run(
        &mut wait,
        vec![
            (0, line("line 1\n")),
            (0, line("line 2\n")),
            (0, line("FM starting NvLink Inband\n")),
        ],
    );
    assert_eq!(end, WaitAction::Done);
}

#[test]
fn test_wait_for_marker_no_marker_panics() {
    let mut wait = wait_for_marker("FM starting NvLink Inband", 1);
    let end = run(
        &mut wait,
        vec![
            (0, line("no match here\n")),
            (SECOND / 2, ReadOutcome::End),
            (SECOND, ReadOutcome::End),
            (SECOND + 1, line("FM starting NvLink Inband\n")),
        ],
    );
    assert_eq!(end, WaitAction::TimedOut);
    assert_eq!(
        wait.timeout_message(),
        "timeout waiting for: FM starting NvLink Inband"
    );
}

#[test]
fn test_wait_for_marker_empty_file_panics() {
    let mut wait = wait_for_marker("FM starting NvLink Inband", 1);
    let end = run(
        &mut wait,
        vec![
            (0, ReadOutcome::End),
            (SECOND, ReadOutcome::End),
            (2 * SECOND, ReadOutcome::End),
        ],
    );
    assert_eq!(end, WaitAction::TimedOut);
}

#[test]
fn test_wait_for_marker_partial_match_not_enough() {
    let mut wait = wait_for_marker("FM starting NvLink Inband", 1);
    let end = run(
        &mut wait,
        vec![
            (0, line("FM starting\n")),
            (0, line("NvLink Inband\n")),
            (2 * SECOND, ReadOutcome::End),
        ],
    );
    assert_eq!(end, WaitAction::TimedOut);
}

#[test]
fn test_wait_for_marker_on_dev_kmsg() {
    let log = open_kmsg("/dev/kmsg");
    assert_eq!(log.path, SYSLOG_FILE_PATH);
    let marker = "NVRC_TEST_MARKER_12345";
    let mut wait = wait_for_marker(marker, 5);
    let end = run(
        &mut wait,
        vec![
            (0, ReadOutcome::WouldBlock),
            (SECOND, line("NVRC_TEST_MARKER_12345\n")),
        ],
    );
    assert_eq!(end, WaitAction::Done);
}

#[test]
fn a_wait_pauses_where_there_is_no_line() {
    for read in [ReadOutcome::End, ReadOutcome::WouldBlock, ReadOutcome::Failed] {
        let mut log = wait_for_marker("m", 1);
        let event = WaitEvent::Read(read);
        assert_eq!(log.next(&event), WaitAction::Sleep(500));
        let mut kmsg = wait_for_kmsg_count("m", 1, 1);
        kmsg.next(&WaitEvent::Opened);
        assert_eq!(kmsg.next(&event), WaitAction::Sleep(200));
    }
}

// === Counting kernel messages ===

#[test]
fn a_count_of_zero_is_done_at_once() {
    let mut wait = wait_for_kmsg_count(FABRIC_MARKER, 0, 300);
    assert_eq!(
        wait.message(&WaitEvent::Begun).unwrap(),
        "wait_for_kmsg_count: count=0, returning immediately"
    );
    assert_eq!(wait.next(&WaitEvent::Begun), WaitAction::Done);
}

#[test]
fn the_kernel_log_is_opened_before_the_first_turn() {
    let mut wait = wait_for_kmsg_count(FABRIC_MARKER, 1, 300);
    assert_eq!(wait.next(&WaitEvent::Begun), OPEN);
    assert_eq!(
        wait.next(&WaitEvent::Opened),
        WaitAction::Turn { drain: false }
    );
    let mut wait = wait_for_marker("m", 1);
    assert_eq!(wait.next(&WaitEvent::Begun), WaitAction::Turn { drain: true });
}

#[test]
fn old_messages_do_not_count() {
    let mut wait = wait_for_kmsg_count("M", 1, 300);
    assert_eq!(wait.stage, WaitStage::Opening);
    assert_eq!(wait.next(&WaitEvent::Begun), OPEN);
    assert_eq!(wait.next(&WaitEvent::Read(line("M\n"))), OPEN);
    assert_eq!(wait.seen, 0);
    assert_eq!(
        wait.next(&WaitEvent::Opened),
        WaitAction::Turn { drain: false }
    );
    assert_eq!(wait.stage, WaitStage::Reading);
    assert_eq!(wait.next(&WaitEvent::Read(line("M\n"))), WaitAction::Done);
}

#[test]
fn a_wait_fails_where_the_log_is_not_open_behind_its_last_message() {
    for failure in [WaitEvent::OpenFailed, WaitEvent::SeekFailed] {
        let mut wait = wait_for_kmsg_count("M", 1, 300);
        assert_eq!(wait.next(&WaitEvent::Begun), OPEN);
        assert_eq!(wait.next(&failure), WaitAction::Failed);
        assert_eq!(wait.next(&WaitEvent::Turn(0)), WaitAction::Failed);
        assert_eq!(wait.next(&WaitEvent::Read(line("M\n"))), WaitAction::Failed);
        assert_eq!(wait.next(&WaitEvent::Opened), WaitAction::Failed);
        assert_eq!(wait.seen, 0);
    }
}

#[test]
fn each_message_with_the_marker_counts_once() {
    let gpu = |n: usize| line(&format!("6,1,2,-;{}: addr X is assigned to GPU {}\n", FABRIC_MARKER, n));
    let mut wait = wait_for_kmsg_count(FABRIC_MARKER, 2, 300);
    assert_eq!(
        run(&mut wait, vec![(0, gpu(0)), (0, line("noise\n")), (0, ReadOutcome::WouldBlock)]),
        WaitAction::Sleep(200)
    );
    assert_eq!(wait.seen, 1);
    assert_eq!(
        wait.message(&WaitEvent::Read(gpu(1))).unwrap(),
        "wait_for_kmsg_count: matched 2/2"
    );
    assert_eq!(run(&mut wait, vec![(300 * SECOND, gpu(1))]), WaitAction::Done);
    assert_eq!(wait.seen, 2);
}

#[test]
fn a_late_message_does_not_count() {
    let mut wait = wait_for_kmsg_count("M", 2, 300);
    assert_eq!(
        run(&mut wait, vec![(0, line("M M\n")), (300 * SECOND + 1, line("M\n"))]),
        WaitAction::TimedOut
    );
    assert_eq!(wait.timeout_message(), "timeout waiting for M (1/2 seen)");
}

#[test]
fn status_lines_do_not_hold_the_marker() {
    let mut wait = wait_for_kmsg_count(FABRIC_MARKER, 8, 300);
    assert_eq!(wait.message(&WaitEvent::Begun), None);
    assert_eq!(wait.message(&WaitEvent::SeekFailed), None);
    let start = wait.message(&WaitEvent::Opened).unwrap();
    assert_eq!(
        start,
        "wait_for_kmsg_count: waiting for 8 occurrence(s) in /dev/kmsg (timeout 300s)"
    );
    assert!(!start.contains(FABRIC_MARKER));
    wait.next(&WaitEvent::Opened);
    let matched = wait.message(&WaitEvent::Read(line(FABRIC_MARKER))).unwrap();
    assert_eq!(matched, "wait_for_kmsg_count: matched 1/8");
    assert!(!matched.contains(FABRIC_MARKER));
}

#[test]
fn a_driven_wait_ends_as_its_turns_say() {
    let turns = || {
        vec![
            (0, line("M\n")),
            (SECOND, ReadOutcome::End),
            (2 * SECOND, line("M\n")),
            (4 * SECOND, line("M\n")),
        ]
    };
    let mut done = wait_for_kmsg_count("M", 2, 3);
    assert_eq!(run(&mut done, turns()), WaitAction::Done);
    let mut late = wait_for_kmsg_count("M", 3, 3);
    assert_eq!(run(&mut late, turns()), WaitAction::TimedOut);
    assert_eq!(late.seen, 2);
    let mut waiting = wait_for_kmsg_count("M", 4, 4);
    assert_eq!(run(&mut waiting, turns()), WaitAction::Turn { drain: false });
    assert_eq!(waiting.seen, 3);
}
