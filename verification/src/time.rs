//! Guest clock synchronization.
//!
//! The guest boots at the Unix epoch. The host's wall-clock time is copied from
//! the KVM PTP clock, before the driver is loaded. No step of this is essential:
//! where one fails, the clock stays as it is.

use vstd::prelude::*;

verus! {

/// The device of the KVM PTP clock.
pub const PTP_DEV: &'static str = "/dev/ptp0";

/// The POSIX clock id for the open file `fd` of a PTP device: the complement of
/// `fd`, shifted left by three bits, with the tag 3 in the low bits.
pub open spec fn clockid(fd: i32) -> i32 {
    ((!fd) << 3) | 3
}

/// The clock id in arithmetic terms: for every file descriptor that fits, it is
/// `-8 * fd - 5`; otherwise the high bits are lost.
pub proof fn law_clockid(fd: i32)
    ensures
        (clockid(fd) + 8 * fd + 5) % 0x1_0000_0000 == 0,
        -0x1000_0000 <= fd < 0x1000_0000 ==> clockid(fd) == -8 * fd - 5,
{
    let r = clockid(fd);
    assert((r + 8 * fd + 5) % 0x1_0000_0000 == 0) by (bit_vector)
        requires
            r == ((!fd) << 3) | 3,
    ;
    assert(-0x1000_0000 <= fd < 0x1000_0000 ==> r == -8 * fd - 5) by (bit_vector)
        requires
            r == ((!fd) << 3) | 3,
    ;
}

/// Different open files have different clock ids.
pub proof fn law_clockid_is_injective(a: i32, b: i32)
    requires
        0 <= a < 0x1000_0000,
        0 <= b < 0x1000_0000,
        clockid(a) == clockid(b),
    ensures
        a == b,
{
    law_clockid(a);
    law_clockid(b);
}

/// The clock id for the open file `fd` of a PTP device.
pub fn fd_to_clockid(fd: i32) -> (r: i32)
    ensures
        r == clockid(fd),
        (r + 8 * fd + 5) % 0x1_0000_0000 == 0,
        -0x1000_0000 <= fd < 0x1000_0000 ==> r == -8 * fd - 5,
{
    proof {
        law_clockid(fd);
    }
    ((!fd) << 3) | 3
}

/// A point in time, in seconds and nanoseconds since the epoch.
#[derive(Debug, Clone, Copy, PartialEq, Eq, Structural)]
pub struct WallTime {
    pub secs: i64,
    pub nanos: i64,
}

/// What happened to the synchronization.
#[derive(Debug, Clone, Copy, PartialEq, Eq, Structural)]
pub enum SyncEvent {
    /// It has begun.
    Begun,
    /// The device was opened with this file descriptor, or could not be opened.
    Opened(Option<i32>),
    /// The clock was read, or could not be read.
    Read(Option<WallTime>),
    /// The clock was set to this time, if `ok`.
    Written { time: WallTime, ok: bool },
}

/// What the synchronization does next.
#[derive(Debug, Clone, Copy, PartialEq, Eq, Structural)]
pub enum SyncAction {
    /// Open the PTP device.
    OpenDevice,
    /// Read the clock with this id.
    ReadClock(i32),
    /// Set the wall clock.
    SetRealtime(WallTime),
    /// Stop: the device is missing and the clock is unchanged.
    Unavailable,
    /// Stop: the device was not read and the clock is unchanged.
    ReadFailed,
    /// Stop: the clock could not be set and is unchanged.
    SetFailed,
    /// Stop: the clock was set to this time.
    Synced(WallTime),
}

/// What follows `event` in the synchronization of the clock.
pub open spec fn sync_next(event: SyncEvent) -> SyncAction {
    match event {
        SyncEvent::Begun => SyncAction::OpenDevice,
        SyncEvent::Opened(None) => SyncAction::Unavailable,
        SyncEvent::Opened(Some(fd)) => SyncAction::ReadClock(clockid(fd)),
        SyncEvent::Read(None) => SyncAction::ReadFailed,
        SyncEvent::Read(Some(time)) => SyncAction::SetRealtime(time),
        SyncEvent::Written { time, ok: false } => SyncAction::SetFailed,
        SyncEvent::Written { time, ok: true } => SyncAction::Synced(time),
    }
}

/// The clock is set exactly if the host's clock was read, and then to that very time, to
/// the nanosecond; success is reported exactly if the clock was set. The host's clock is
/// read exactly if its device was opened, by the id of that open file.
pub proof fn law_clock_is_set_to_the_time_read(event: SyncEvent)
    ensures
        sync_next(event) is SetRealtime <==> event is Read && event->Read_0 is Some,
        sync_next(event) is SetRealtime ==> {
            &&& sync_next(event)->SetRealtime_0.secs == event->Read_0->Some_0.secs
            &&& sync_next(event)->SetRealtime_0.nanos == event->Read_0->Some_0.nanos
        },
        sync_next(event) is Synced <==> event is Written && event->ok,
        sync_next(event) is Synced ==> sync_next(event)->Synced_0 == event->time,
        sync_next(event) is SetFailed <==> event is Written && !event->ok,
        sync_next(event) is ReadFailed <==> event is Read && event->Read_0 is None,
        sync_next(event) is ReadClock <==> event is Opened && event->Opened_0 is Some,
        sync_next(event) is ReadClock ==> (sync_next(event)->ReadClock_0 + 8
            * event->Opened_0->Some_0 + 5) % 0x1_0000_0000 == 0,
        sync_next(event) is Unavailable <==> event is Opened && event->Opened_0 is None,
        sync_next(event) is OpenDevice <==> event is Begun,
{
    if let SyncEvent::Opened(Some(fd)) = event {
        law_clockid(fd);
    }
}

/// What follows `event` in the synchronization of the clock. The clock is set to
/// nothing but the time that was read.
pub fn sync_from_host(event: SyncEvent) -> (r: SyncAction)
    ensures
        r == sync_next(event),
        match event {
            SyncEvent::Begun => r == SyncAction::OpenDevice,
            SyncEvent::Opened(None) => r == SyncAction::Unavailable,
            SyncEvent::Opened(Some(fd)) => r == SyncAction::ReadClock(clockid(fd)),
            SyncEvent::Read(None) => r == SyncAction::ReadFailed,
            SyncEvent::Read(Some(time)) => r == SyncAction::SetRealtime(time),
            SyncEvent::Written { time, ok: false } => r == SyncAction::SetFailed,
            SyncEvent::Written { time, ok: true } => r == SyncAction::Synced(time),
        },
{
    match event {
        SyncEvent::Begun => SyncAction::OpenDevice,
        SyncEvent::Opened(None) => SyncAction::Unavailable,
        SyncEvent::Opened(Some(fd)) => SyncAction::ReadClock(fd_to_clockid(fd)),
        SyncEvent::Read(None) => SyncAction::ReadFailed,
        SyncEvent::Read(Some(time)) => SyncAction::SetRealtime(time),
        SyncEvent::Written { time, ok } => if ok {
            SyncAction::Synced(time)
        } else {
            SyncAction::SetFailed
        },
    }
}

} // verus!
