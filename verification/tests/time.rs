use nvrc::time::{fd_to_clockid, sync_from_host, SyncAction, SyncEvent, WallTime, PTP_DEV};

#[test]
fn test_fd_to_clockid_matches_posix_macro() {
    assert_eq!(fd_to_clockid(0), -5);
    assert_eq!(fd_to_clockid(3), -29);
}

#[test]
fn clock_ids_of_different_files_differ() {
    assert_eq!(fd_to_clockid(1023), -8 * 1023 - 5);
    assert!(fd_to_clockid(4) != fd_to_clockid(5));
    assert_eq!(fd_to_clockid(i32::MAX), ((!i32::MAX) << 3) | 3);
}

#[test]
fn the_clock_is_set_to_the_time_that_was_read() {
    let time = WallTime {
        secs: 1_700_000_000,
        nanos: 42,
    };
    assert_eq!(PTP_DEV, "/dev/ptp0");
    assert_eq!(sync_from_host(SyncEvent::Begun), SyncAction::OpenDevice);
    assert_eq!(
        sync_from_host(SyncEvent::Opened(Some(3))),
        SyncAction::ReadClock(-29)
    );
    assert_eq!(
        sync_from_host(SyncEvent::Read(Some(time))),
        SyncAction::SetRealtime(time)
    );
    assert_eq!(
        sync_from_host(SyncEvent::Written { time, ok: true }),
        SyncAction::Synced(time)
    );
}

#[test]
fn a_failure_leaves_the_clock_unchanged() {
    let time = WallTime { secs: 1, nanos: 2 };
    assert_eq!(
        sync_from_host(SyncEvent::Opened(None)),
        SyncAction::Unavailable
    );
    assert_eq!(sync_from_host(SyncEvent::Read(None)), SyncAction::ReadFailed);
    assert_eq!(
        sync_from_host(SyncEvent::Written { time, ok: false }),
        SyncAction::SetFailed
    );
}
