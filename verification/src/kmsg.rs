//! Kernel messages and the syslog file: where they are read and written, and how
//! the init waits for a daemon to report itself there.

use crate::text;
use crate::text::{contains, push_decimal, same_text};
use vstd::prelude::*;

verus! {

/// Where the syslog of the daemons is kept.
pub const SYSLOG_FILE_PATH: &'static str = "/run/syslog.log";

/// The kernel log.
pub const KMSG: &'static str = "/dev/kmsg";

/// Socket buffers of 16 MiB hold the bursts of diagnostics that the drivers emit.
pub const SOCKET_BUFFER_SIZE: &'static str = "16777216";

// ---------------------------------------------------------------------------
// Setup
// ---------------------------------------------------------------------------

/// A step of the setup of kernel logging.
#[derive(Debug, PartialEq, Eq)]
pub enum LogSetup {
    /// Make the kernel log the target of the logger.
    InitLogger,
    /// Let no level of log message pass.
    SilenceLog,
    /// Write a file.
    WriteFile { path: &'static str, contents: &'static str },
}

/// A step of the setup, with its texts as sequences of characters.
pub enum LogSetupStep {
    InitLogger,
    SilenceLog,
    WriteFile { path: Seq<char>, contents: Seq<char> },
}

impl View for LogSetup {
    type V = LogSetupStep;

    open spec fn view(&self) -> LogSetupStep {
        match self {
            LogSetup::InitLogger => LogSetupStep::InitLogger,
            LogSetup::SilenceLog => LogSetupStep::SilenceLog,
            LogSetup::WriteFile { path, contents } => LogSetupStep::WriteFile {
                path: path@,
                contents: contents@,
            },
        }
    }
}

/// The step that sizes the socket buffers of one kind.
pub open spec fn buffer_step(path: Seq<char>) -> LogSetupStep {
    LogSetupStep::WriteFile { path, contents: SOCKET_BUFFER_SIZE@ }
}

/// The steps of the setup of kernel logging. The logger is initialized once only.
pub open spec fn kernlog_steps(initialized: bool) -> Seq<LogSetupStep> {
    let first = if initialized {
        seq![]
    } else {
        seq![LogSetupStep::InitLogger]
    };
    first + seq![
        LogSetupStep::SilenceLog,
        buffer_step("/proc/sys/net/core/rmem_default"@),
        buffer_step("/proc/sys/net/core/wmem_default"@),
        buffer_step("/proc/sys/net/core/rmem_max"@),
        buffer_step("/proc/sys/net/core/wmem_max"@),
    ]
}

/// Sets kernel logging up and enlarges the socket buffers. `initialized` says
/// whether an earlier setup has initialized the logger.
pub fn kernlog_setup(initialized: bool) -> (r: Vec<LogSetup>)
    ensures
        Seq::new(r@.len(), |i: int| r@[i]@) == kernlog_steps(initialized),
{
    let mut r: Vec<LogSetup> = Vec::new();
    if !initialized {
        r.push(LogSetup::InitLogger);
    }
    r.push(LogSetup::SilenceLog);
    r.push(
        LogSetup::WriteFile {
            path: "/proc/sys/net/core/rmem_default",
            contents: SOCKET_BUFFER_SIZE,
        },
    );
    r.push(
        LogSetup::WriteFile {
            path: "/proc/sys/net/core/wmem_default",
            contents: SOCKET_BUFFER_SIZE,
        },
    );
    r.push(
        LogSetup::WriteFile { path: "/proc/sys/net/core/rmem_max", contents: SOCKET_BUFFER_SIZE },
    );
    r.push(
        LogSetup::WriteFile { path: "/proc/sys/net/core/wmem_max", contents: SOCKET_BUFFER_SIZE },
    );
    assert(Seq::new(r@.len(), |i: int| r@[i]@) == kernlog_steps(initialized));
    r
}

/// The path that output for the kernel log is written to: the log itself where
/// debug logging is on, else nowhere.
pub fn kmsg(debug_enabled: bool) -> (r: &'static str)
    ensures
        r@ == if debug_enabled {
            KMSG@
        } else {
            "/dev/null"@
        },
{
    if debug_enabled {
        KMSG
    } else {
        "/dev/null"
    }
}

// ---------------------------------------------------------------------------
// Opening the log
// ---------------------------------------------------------------------------

/// How far the opening of a log has come.
#[derive(Debug, Clone, Copy, PartialEq, Eq, Structural)]
pub enum OpenStage {
    /// The log is being opened.
    Opening,
    /// There was none, and an empty one is being created.
    Creating,
    /// It was created and is being opened.
    Reopening,
    /// The log is open.
    Open,
    /// The log cannot be opened.
    Failed,
}

/// What came of the last attempt on the file.
#[derive(Debug, Clone, Copy, PartialEq, Eq, Structural)]
pub enum OpenEvent {
    /// It succeeded.
    Succeeded,
    /// There is no such file.
    NotFound,
    /// It failed otherwise.
    Failed,
}

/// The stage that `event` leads to from `stage`.
pub open spec fn opening_next(stage: OpenStage, event: OpenEvent) -> OpenStage {
    match (stage, event) {
        (OpenStage::Opening, OpenEvent::Succeeded) => OpenStage::Open,
        (OpenStage::Opening, OpenEvent::NotFound) => OpenStage::Creating,
        (OpenStage::Creating, OpenEvent::Succeeded) => OpenStage::Reopening,
        (OpenStage::Reopening, OpenEvent::Succeeded) => OpenStage::Open,
        (OpenStage::Open, _) => OpenStage::Open,
        _ => OpenStage::Failed,
    }
}

/// The opening of a log for reading. In the stages `Opening` and `Reopening` the
/// file at `path` is to be opened read-only and non-blocking; in the stage
/// `Creating` it is to be created, only if it is new, with the mode `mode`.
#[derive(Debug)]
pub struct LogOpening {
    pub path: String,
    pub mode: u32,
    pub stage: OpenStage,
}

/// The path that is read for the log `path`. The kernel log stands for the syslog
/// file, where the daemons' messages go whatever the log level.
pub open spec fn log_path(path: Seq<char>) -> Seq<char> {
    if path == KMSG@ {
        SYSLOG_FILE_PATH@
    } else {
        path
    }
}

/// Starts to open the log `path`.
pub fn open_kmsg(path: &str) -> (r: LogOpening)
    ensures
        r.path@ == log_path(path@),
        r.mode == 0o600,
        r.stage == OpenStage::Opening,
{
    let path = if same_text(path, KMSG) {
        SYSLOG_FILE_PATH.to_owned()
    } else {
        path.to_owned()
    };
    LogOpening { path, mode: 0o600, stage: OpenStage::Opening }
}

impl LogOpening {
    /// Takes note of what came of the last attempt.
    pub fn advance(&mut self, event: OpenEvent)
        ensures
            final(self).stage == opening_next(old(self).stage, event),
            final(self).path == old(self).path,
            final(self).mode == old(self).mode,
    {
        self.stage = match (self.stage, event) {
            (OpenStage::Opening, OpenEvent::Succeeded) => OpenStage::Open,
            (OpenStage::Opening, OpenEvent::NotFound) => OpenStage::Creating,
            (OpenStage::Creating, OpenEvent::Succeeded) => OpenStage::Reopening,
            (OpenStage::Reopening, OpenEvent::Succeeded) => OpenStage::Open,
            (OpenStage::Open, _) => OpenStage::Open,
            _ => OpenStage::Failed,
        };
    }
}

/// A log is opened in three attempts at most: it is opened, or it was missing and
/// is created and then opened. Nothing else leads to an open log.
pub proof fn law_opening_ends(a: OpenEvent, b: OpenEvent, c: OpenEvent)
    ensures
        ({
            let s1 = opening_next(OpenStage::Opening, a);
            let s2 = opening_next(s1, b);
            let s3 = opening_next(s2, c);
            &&& s1 == OpenStage::Creating <==> a == OpenEvent::NotFound
            &&& s2 != OpenStage::Creating && s3 != OpenStage::Creating
            &&& s3 == OpenStage::Open <==> (a == OpenEvent::Succeeded || (a == OpenEvent::NotFound
                && b == OpenEvent::Succeeded && c == OpenEvent::Succeeded))
            &&& s3 == OpenStage::Open || s3 == OpenStage::Failed
        }),
{
}

// ---------------------------------------------------------------------------
// Waiting
// ---------------------------------------------------------------------------

/// What a wait reads.
#[derive(Debug, Clone, Copy, PartialEq, Eq, Structural)]
pub enum Source {
    /// A log that was opened before. The syslog socket is drained into it each turn.
    Log,
    /// The kernel messages from here on.
    Kmsg,
}

/// What came of an attempt to read a line.
#[derive(Debug, PartialEq, Eq)]
pub enum ReadOutcome {
    /// A line.
    Line(String),
    /// The end of what is there.
    End,
    /// Nothing yet.
    WouldBlock,
    /// Another error.
    Failed,
}

/// How far a wait has come.
#[derive(Debug, Clone, Copy, PartialEq, Eq, Structural)]
pub enum WaitStage {
    /// The kernel log is not yet open behind its last message. No line counts.
    Opening,
    /// Lines are read and counted.
    Reading,
    /// The kernel log cannot be read from its last message on.
    Failed,
}

/// What happened to a wait.
#[derive(Debug, PartialEq, Eq)]
pub enum WaitEvent {
    /// It has begun.
    Begun,
    /// The kernel log was opened behind its last message.
    Opened,
    /// The kernel log could not be opened.
    OpenFailed,
    /// The kernel log was opened, but not behind its last message.
    SeekFailed,
    /// A turn has begun, this many nanoseconds into the wait.
    Turn(u128),
    /// A line was asked for.
    Read(ReadOutcome),
    /// A pause is over.
    Slept,
}

/// What a wait does next.
#[derive(Debug, Clone, Copy, PartialEq, Eq)]
pub enum WaitAction {
    /// Open the kernel log at this path read-only, non-blocking and behind its last
    /// message, so that only messages from here on are read.
    OpenKmsg(&'static str),
    /// Begin a turn: drain the syslog socket if `drain`, then look at the clock.
    Turn { drain: bool },
    /// Ask for a line.
    Read,
    /// Pause for this many milliseconds.
    Sleep(u64),
    /// Everything that was waited for has come.
    Done,
    /// The time is up.
    TimedOut,
    /// The new messages of the kernel log cannot be told from the old ones, or not
    /// be read at all.
    Failed,
}

/// A wait for `count` lines that hold `marker`, of which `seen` have come.
#[derive(Debug)]
pub struct Wait {
    pub source: Source,
    pub marker: String,
    pub count: usize,
    pub seen: usize,
    pub timeout_secs: u32,
    pub stage: WaitStage,
}

/// The line of a read, where it gave one.
pub open spec fn line_of(read: ReadOutcome) -> Option<Seq<char>> {
    match read {
        ReadOutcome::Line(line) => Some(line@),
        _ => None,
    }
}

/// `line` is one that holds `marker`.
pub open spec fn is_match(line: Option<Seq<char>>, marker: Seq<char>) -> bool {
    line is Some && text::has_substring(line->Some_0, marker)
}

/// The pause after a read without a line.
pub open spec fn pause_ms(source: Source) -> u64 {
    match source {
        Source::Log => 500,
        Source::Kmsg => 200,
    }
}

/// More than `timeout_secs` seconds are in `elapsed_ns` nanoseconds.
pub open spec fn expired(elapsed_ns: u128, timeout_secs: u32) -> bool {
    elapsed_ns > timeout_secs * 1_000_000_000
}

/// A wait for one line that holds `marker`, in a log that was opened before.
pub fn wait_for_marker(marker: &str, timeout_secs: u32) -> (r: Wait)
    ensures
        r.source == Source::Log,
        r.marker@ == marker@,
        r.count == 1,
        r.seen == 0,
        r.timeout_secs == timeout_secs,
        r.stage == WaitStage::Reading,
{
    Wait {
        source: Source::Log,
        marker: marker.to_owned(),
        count: 1,
        seen: 0,
        timeout_secs,
        stage: WaitStage::Reading,
    }
}

/// A wait for `count` new kernel messages that hold `marker`. The driver's own
/// messages never reach the syslog file, so the kernel log is read directly.
pub fn wait_for_kmsg_count(marker: &str, count: usize, timeout_secs: u32) -> (r: Wait)
    ensures
        r.source == Source::Kmsg,
        r.marker@ == marker@,
        r.count == count,
        r.seen == 0,
        r.timeout_secs == timeout_secs,
        r.stage == WaitStage::Opening,
{
    Wait {
        source: Source::Kmsg,
        marker: marker.to_owned(),
        count,
        seen: 0,
        timeout_secs,
        stage: WaitStage::Opening,
    }
}

/// `seen`, and one more if `line` holds `marker`.
pub open spec fn counted(seen: nat, line: Option<Seq<char>>, marker: Seq<char>) -> nat {
    if is_match(line, marker) {
        seen + 1
    } else {
        seen
    }
}

impl Wait {
    /// The lines that hold the marker after `event`.
    pub open spec fn seen_after(self, event: WaitEvent) -> nat {
        match event {
            WaitEvent::Read(read) if self.stage == WaitStage::Reading && self.seen
                < self.count => counted(self.seen as nat, line_of(read), self.marker@),
            _ => self.seen as nat,
        }
    }

    /// How far the wait has come after `event`. Where everything has come that was
    /// waited for, the kernel log is not opened any more.
    pub open spec fn stage_after(self, event: WaitEvent) -> WaitStage {
        if self.stage == WaitStage::Failed || self.seen >= self.count {
            self.stage
        } else {
            match event {
                WaitEvent::OpenFailed => WaitStage::Failed,
                WaitEvent::SeekFailed => WaitStage::Failed,
                WaitEvent::Opened => WaitStage::Reading,
                _ => self.stage,
            }
        }
    }

    /// The wait after `event`.
    pub open spec fn after(self, event: WaitEvent) -> Wait {
        Wait { seen: self.seen_after(event) as usize, stage: self.stage_after(event), ..self }
    }

    /// What follows `event`.
    pub open spec fn action_after(self, event: WaitEvent) -> WaitAction {
        if self.stage_after(event) == WaitStage::Failed {
            WaitAction::Failed
        } else if self.seen_after(event) >= self.count {
            WaitAction::Done
        } else if self.stage_after(event) == WaitStage::Opening {
            WaitAction::OpenKmsg(KMSG)
        } else {
            match event {
                WaitEvent::Turn(elapsed_ns) => if expired(elapsed_ns, self.timeout_secs) {
                    WaitAction::TimedOut
                } else {
                    WaitAction::Read
                },
                WaitEvent::Read(read) if line_of(read) is None => WaitAction::Sleep(
                    pause_ms(self.source),
                ),
                _ => WaitAction::Turn { drain: self.source == Source::Log },
            }
        }
    }

    /// Takes note of `event` and says what follows it. The clock is looked at
    /// before each read, and kernel messages count only once the log was opened
    /// behind its last one.
    pub fn next(&mut self, event: &WaitEvent) -> (r: WaitAction)
        ensures
            r == old(self).action_after(*event),
            *final(self) == old(self).after(*event),
            final(self).seen == old(self).seen_after(*event),
            match *event {
                WaitEvent::Read(ReadOutcome::Line(line)) => final(self).seen == old(self).seen + (
                if old(self).stage == WaitStage::Reading && old(self).seen < old(self).count
                    && exists|i: int, j: int|
                    0 <= i <= j <= line@.len() && #[trigger] line@.subrange(i, j) == old(
                        self,
                    ).marker@ {
                    1int
                } else {
                    0
                }),
                _ => final(self).seen == old(self).seen,
            },
    {
        proof {
            if let WaitEvent::Read(ReadOutcome::Line(line)) = event {
                law_line_counts_exactly_if_it_holds_the_marker(*old(self), *line);
            }
        }
        if self.stage == WaitStage::Failed {
            return WaitAction::Failed;
        }
        if self.seen >= self.count {
            return WaitAction::Done;
        }
        match event {
            WaitEvent::OpenFailed | WaitEvent::SeekFailed => {
                self.stage = WaitStage::Failed;
                return WaitAction::Failed;
            },
            WaitEvent::Opened => {
                self.stage = WaitStage::Reading;
            },
            _ => {},
        }
        if self.stage == WaitStage::Opening {
            return WaitAction::OpenKmsg(KMSG);
        }
        match event {
            WaitEvent::Turn(elapsed_ns) => {
                if *elapsed_ns > self.timeout_secs as u128 * 1_000_000_000 {
                    return WaitAction::TimedOut;
                }
                return WaitAction::Read;
            },
            WaitEvent::Read(read) => match read {
                ReadOutcome::Line(line) => {
                    if contains(line.as_str(), self.marker.as_str()) {
                        self.seen += 1;
                        if self.seen >= self.count {
                            return WaitAction::Done;
                        }
                    }
                },
                _ => {
                    return match self.source {
                        Source::Log => WaitAction::Sleep(500),
                        Source::Kmsg => WaitAction::Sleep(200),
                    };
                },
            },
            _ => {},
        }
        WaitAction::Turn { drain: self.source == Source::Log }
    }

    /// What a wait for kernel messages logs at its start.
    pub open spec fn start_text(self) -> Seq<char> {
        if self.count == 0 {
            "wait_for_kmsg_count: count=0, returning immediately"@
        } else {
            "wait_for_kmsg_count: waiting for "@ + text::decimal(self.count as nat)
                + " occurrence(s) in /dev/kmsg (timeout "@ + text::decimal(
                self.timeout_secs as nat,
            ) + "s)"@
        }
    }

    /// What a wait logs for the match that was its last.
    pub open spec fn match_text(self) -> Seq<char> {
        match self.source {
            Source::Log => self.marker@,
            Source::Kmsg => "wait_for_kmsg_count: matched "@ + text::decimal(self.seen as nat)
                + "/"@ + text::decimal(self.count as nat),
        }
    }

    /// What a wait that has timed out says.
    pub open spec fn timeout_text(self) -> Seq<char> {
        match self.source {
            Source::Log => "timeout waiting for: "@ + self.marker@,
            Source::Kmsg => "timeout waiting for "@ + self.marker@ + " ("@ + text::decimal(
                self.seen as nat,
            ) + "/"@ + text::decimal(self.count as nat) + " seen)"@,
        }
    }

    /// What is logged for `event`: the start of a wait for kernel messages, once the
    /// kernel log is open or if there is nothing to wait for, and each match.
    pub open spec fn message_after(self, event: WaitEvent) -> Option<Seq<char>> {
        match event {
            WaitEvent::Begun if self.source == Source::Kmsg && self.count == 0 => Some(
                self.start_text(),
            ),
            WaitEvent::Opened if self.stage == WaitStage::Opening && self.seen < self.count => Some(
                self.start_text(),
            ),
            WaitEvent::Read(_) if self.seen_after(event) > self.seen => Some(
                self.after(event).match_text(),
            ),
            _ => None,
        }
    }

    /// The message to log for `event`, where there is one.
    pub fn message(&self, event: &WaitEvent) -> (r: Option<String>)
        ensures
            match r {
                Some(m) => self.message_after(*event) == Some(m@),
                None => self.message_after(*event) is None,
            },
    {
        match event {
            WaitEvent::Begun => {
                if self.source == Source::Kmsg && self.count == 0 {
                    return Some(self.start_message());
                }
            },
            WaitEvent::Opened => {
                if self.stage == WaitStage::Opening && self.seen < self.count {
                    return Some(self.start_message());
                }
            },
            WaitEvent::Read(ReadOutcome::Line(line)) => {
                if self.stage == WaitStage::Reading && self.seen < self.count && contains(
                    line.as_str(),
                    self.marker.as_str(),
                ) {
                    return Some(self.match_message(self.seen + 1));
                }
            },
            _ => {},
        }
        None
    }

    /// The message of the start.
    fn start_message(&self) -> (r: String)
        ensures
            r@ == self.start_text(),
    {
        let mut m = String::new();
        if self.count == 0 {
            m.append("wait_for_kmsg_count: count=0, returning immediately");
        } else {
            m.append("wait_for_kmsg_count: waiting for ");
            push_decimal(&mut m, self.count as u64);
            m.append(" occurrence(s) in /dev/kmsg (timeout ");
            push_decimal(&mut m, self.timeout_secs as u64);
            m.append("s)");
        }
        assert(m@ == self.start_text());
        m
    }

    /// The message of the match that brings the lines with the marker to `seen`.
    fn match_message(&self, seen: usize) -> (r: String)
        ensures
            r@ == (Wait { seen, ..*self }).match_text(),
    {
        match self.source {
            Source::Log => self.marker.clone(),
            Source::Kmsg => {
                let mut m = String::new();
                m.append("wait_for_kmsg_count: matched ");
                push_decimal(&mut m, seen as u64);
                m.append("/");
                push_decimal(&mut m, self.count as u64);
                assert(m@ == (Wait { seen, ..*self }).match_text());
                m
            },
        }
    }

    /// The message to fail with when the time is up.
    pub fn timeout_message(&self) -> (r: String)
        ensures
            r@ == self.timeout_text(),
    {
        let mut m = String::new();
        match self.source {
            Source::Log => {
                m.append("timeout waiting for: ");
                m.append(self.marker.as_str());
            },
            Source::Kmsg => {
                m.append("timeout waiting for ");
                m.append(self.marker.as_str());
                m.append(" (");
                push_decimal(&mut m, self.seen as u64);
                m.append("/");
                push_decimal(&mut m, self.count as u64);
                m.append(" seen)");
            },
        }
        assert(m@ == self.timeout_text());
        m
    }
}

// ---------------------------------------------------------------------------
// Laws
// ---------------------------------------------------------------------------

/// A turn of a wait: when it began, and the line that was read in it, if any.
pub type TurnRecord = (u128, Option<Seq<char>>);

/// How many of the turns read a line that holds `marker`.
pub open spec fn matches(turns: Seq<TurnRecord>, marker: Seq<char>) -> nat
    decreases turns.len(),
{
    if turns.len() == 0 {
        0
    } else {
        counted(matches(turns.drop_last(), marker), turns.last().1, marker)
    }
}

/// No turn of `turns` began after the time was up.
pub open spec fn on_time(turns: Seq<TurnRecord>, timeout_secs: u32) -> bool {
    forall|i: int| 0 <= i < turns.len() ==> !expired((#[trigger] turns[i]).0, timeout_secs)
}

/// How a wait stands.
pub enum Outcome {
    Waiting(nat),
    Done,
    TimedOut,
}

/// How a wait stands after one more turn.
pub open spec fn after_turn(
    marker: Seq<char>,
    count: nat,
    timeout_secs: u32,
    before: Outcome,
    turn: TurnRecord,
) -> Outcome {
    match before {
        Outcome::Waiting(seen) => if expired(turn.0, timeout_secs) {
            Outcome::TimedOut
        } else if counted(seen, turn.1, marker) >= count {
            Outcome::Done
        } else {
            Outcome::Waiting(counted(seen, turn.1, marker))
        },
        _ => before,
    }
}

/// How a wait that has seen nothing yet stands after `turns`.
pub open spec fn outcome(
    marker: Seq<char>,
    count: nat,
    timeout_secs: u32,
    turns: Seq<TurnRecord>,
) -> Outcome
    decreases turns.len(),
{
    if turns.len() == 0 {
        if count == 0 {
            Outcome::Done
        } else {
            Outcome::Waiting(0)
        }
    } else {
        after_turn(
            marker,
            count,
            timeout_secs,
            outcome(marker, count, timeout_secs, turns.drop_last()),
            turns.last(),
        )
    }
}

/// A turn of the wait is a look at the clock and, if the time is not up, a read.
pub proof fn law_turn(w: Wait, elapsed_ns: u128, read: ReadOutcome)
    requires
        w.stage == WaitStage::Reading,
        w.seen < w.count,
    ensures
        ({
            let v = w.after(WaitEvent::Turn(elapsed_ns));
            let before = Outcome::Waiting(w.seen as nat);
            let after = after_turn(
                w.marker@,
                w.count as nat,
                w.timeout_secs,
                before,
                (elapsed_ns, line_of(read)),
            );
            let look = w.action_after(WaitEvent::Turn(elapsed_ns));
            let done = v.action_after(WaitEvent::Read(read)) == WaitAction::Done;
            &&& after == Outcome::TimedOut <==> look == WaitAction::TimedOut
            &&& look == WaitAction::TimedOut || look == WaitAction::Read
            &&& look == WaitAction::Read ==> (after == Outcome::Done <==> done)
            &&& look == WaitAction::Read && !done ==> after == Outcome::Waiting(
                v.seen_after(WaitEvent::Read(read)),
            )
        }),
{
}

/// A wait ends well exactly if enough lines with the marker were read before the
/// time was up, and it times out exactly if the time was up before that.
pub proof fn law_wait_outcome(
    marker: Seq<char>,
    count: nat,
    timeout_secs: u32,
    turns: Seq<TurnRecord>,
)
    ensures
        outcome(marker, count, timeout_secs, turns) == Outcome::Done <==> exists|n: int|
            0 <= n <= turns.len() && on_time(#[trigger] turns.take(n), timeout_secs) && matches(
                turns.take(n),
                marker,
            ) >= count,
        outcome(marker, count, timeout_secs, turns) == Outcome::TimedOut <==> exists|n: int|
            0 <= n < turns.len() && on_time(#[trigger] turns.take(n), timeout_secs) && matches(
                turns.take(n),
                marker,
            ) < count && expired(turns[n].0, timeout_secs),
        outcome(marker, count, timeout_secs, turns) is Waiting <==> on_time(turns, timeout_secs)
            && matches(turns, marker) < count,
        outcome(marker, count, timeout_secs, turns) is Waiting ==> outcome(
            marker,
            count,
            timeout_secs,
            turns,
        ) == Outcome::Waiting(matches(turns, marker)),
    decreases turns.len(),
{
    let now = outcome(marker, count, timeout_secs, turns);
    assert(turns.take(turns.len() as int) == turns);
    if turns.len() == 0 {
        assert(turns.take(0) == turns);
    } else {
        let init = turns.drop_last();
        let last = turns.last();
        let before = outcome(marker, count, timeout_secs, init);
        law_wait_outcome(marker, count, timeout_secs, init);
        assert forall|n: int| 0 <= n <= init.len() implies #[trigger] turns.take(n) == init.take(
            n,
        ) by {}
        assert(init.take(init.len() as int) == init);
        assert(turns.take(init.len() as int) == init);
        if before == Outcome::Done {
            let n = choose|n: int|
                0 <= n <= init.len() && on_time(#[trigger] init.take(n), timeout_secs) && matches(
                    init.take(n),
                    marker,
                ) >= count;
            assert(turns.take(n) == init.take(n));
        }
        if before == Outcome::TimedOut {
            let n = choose|n: int|
                0 <= n < init.len() && on_time(#[trigger] init.take(n), timeout_secs) && matches(
                    init.take(n),
                    marker,
                ) < count && expired(init[n].0, timeout_secs);
            assert(turns.take(n) == init.take(n));
            assert(turns[n] == init[n]);
        }
    }
}

/// What a turn finds: when it begins, and what comes of the read in it.
pub type TurnInput = (u128, ReadOutcome);

/// The records of turns that find `inputs`.
pub open spec fn records(inputs: Seq<TurnInput>) -> Seq<TurnRecord> {
    Seq::new(inputs.len(), |i: int| (inputs[i].0, line_of(inputs[i].1)))
}

/// A wait to which nothing has happened yet.
pub open spec fn is_fresh(w: Wait) -> bool {
    &&& w.seen == 0
    &&& w.stage == match w.source {
        Source::Log => WaitStage::Reading,
        Source::Kmsg => WaitStage::Opening,
    }
}

/// A wait that has begun, and what it does next. A kernel log that it asks for is
/// opened.
pub open spec fn begun(w: Wait) -> (Wait, WaitAction) {
    let v = w.after(WaitEvent::Begun);
    let next = w.action_after(WaitEvent::Begun);
    if next is OpenKmsg {
        (v.after(WaitEvent::Opened), v.action_after(WaitEvent::Opened))
    } else {
        (v, next)
    }
}

/// A wait and what it does next, after it was given what it asked for until its next
/// turn, which finds `input`, is over. One that has ended asks for nothing.
pub open spec fn turned(at: (Wait, WaitAction), input: TurnInput) -> (Wait, WaitAction) {
    let (w, next) = if at.1 is Sleep {
        (at.0.after(WaitEvent::Slept), at.0.action_after(WaitEvent::Slept))
    } else {
        at
    };
    if next is Turn {
        let look = WaitEvent::Turn(input.0);
        let read = WaitEvent::Read(input.1);
        if w.action_after(look) == WaitAction::Read {
            (w.after(look).after(read), w.after(look).action_after(read))
        } else {
            (w.after(look), w.action_after(look))
        }
    } else {
        (w, next)
    }
}

/// A wait and what it does next, after turns that find `inputs`.
pub open spec fn driven(w: Wait, inputs: Seq<TurnInput>) -> (Wait, WaitAction)
    decreases inputs.len(),
{
    if inputs.len() == 0 {
        begun(w)
    } else {
        turned(driven(w, inputs.drop_last()), inputs.last())
    }
}

/// How a wait stands, by what it does next.
pub open spec fn stands(at: (Wait, WaitAction)) -> Outcome {
    match at.1 {
        WaitAction::Done => Outcome::Done,
        WaitAction::TimedOut => Outcome::TimedOut,
        _ => Outcome::Waiting(at.0.seen as nat),
    }
}

/// A wait that is driven through turns, with its pauses between them, ends as the
/// outcome of these turns says. So it is done exactly if enough lines with the marker
/// were read before the time was up, it times out exactly if the time was up before
/// that, and otherwise it goes on, with each such line counted.
pub proof fn law_driven_wait(w: Wait, inputs: Seq<TurnInput>)
    requires
        is_fresh(w),
    ensures
        ({
            let at = driven(w, inputs);
            let turns = records(inputs);
            &&& stands(at) == outcome(w.marker@, w.count as nat, w.timeout_secs, turns)
            &&& at.1 == WaitAction::Done <==> exists|n: int|
                0 <= n <= turns.len() && on_time(#[trigger] turns.take(n), w.timeout_secs)
                    && matches(turns.take(n), w.marker@) >= w.count
            &&& at.1 == WaitAction::TimedOut <==> exists|n: int|
                0 <= n < turns.len() && on_time(#[trigger] turns.take(n), w.timeout_secs)
                    && matches(turns.take(n), w.marker@) < w.count && expired(
                    turns[n].0,
                    w.timeout_secs,
                )
            &&& at.1 is Turn || at.1 is Sleep <==> on_time(turns, w.timeout_secs) && matches(
                turns,
                w.marker@,
            ) < w.count
            &&& at.1 is Turn || at.1 is Sleep ==> at.0.seen == matches(turns, w.marker@)
        }),
{
    lemma_driven_wait(w, inputs);
    law_wait_outcome(w.marker@, w.count as nat, w.timeout_secs, records(inputs));
}

proof fn lemma_driven_wait(w: Wait, inputs: Seq<TurnInput>)
    requires
        is_fresh(w),
    ensures
        ({
            let (v, next) = driven(w, inputs);
            &&& stands((v, next)) == outcome(
                w.marker@,
                w.count as nat,
                w.timeout_secs,
                records(inputs),
            )
            &&& v.source == w.source && v.marker == w.marker && v.count == w.count
            &&& v.timeout_secs == w.timeout_secs
            &&& next is Turn || next is Sleep || next is Done || next is TimedOut
            &&& next is Turn || next is Sleep ==> v.stage == WaitStage::Reading && v.seen < v.count
        }),
    decreases inputs.len(),
{
    if inputs.len() > 0 {
        let init = inputs.drop_last();
        let input = inputs.last();
        lemma_driven_wait(w, init);
        assert(records(inputs).drop_last() == records(init));
        assert(records(inputs).last() == (input.0, line_of(input.1)));
        let at = driven(w, init);
        if at.1 is Turn || at.1 is Sleep {
            law_turn(at.0, input.0, input.1);
        }
    }
}

/// A wait after the events `es`, in their order.
pub open spec fn after_all(w: Wait, es: Seq<WaitEvent>) -> Wait
    decreases es.len(),
{
    if es.len() == 0 {
        w
    } else {
        after_all(w, es.drop_last()).after(es.last())
    }
}

/// Only messages from after the call count: as long as the kernel log was not opened
/// behind its last message, no line that is read counts and the wait is not done.
pub proof fn law_old_messages_do_not_count(w: Wait, es: Seq<WaitEvent>, next: WaitEvent)
    requires
        w.stage == WaitStage::Opening,
        w.seen < w.count,
        forall|i: int| 0 <= i < es.len() ==> !(#[trigger] es[i] is Opened),
        !(next is Opened),
    ensures
        after_all(w, es).seen == w.seen,
        after_all(w, es).stage != WaitStage::Reading,
        after_all(w, es).action_after(next) == WaitAction::OpenKmsg(KMSG) || after_all(
            w,
            es,
        ).action_after(next) == WaitAction::Failed,
    decreases es.len(),
{
    lemma_settings_stay(w, es);
    if es.len() > 0 {
        law_old_messages_do_not_count(w, es.drop_last(), es.last());
        lemma_settings_stay(w, es.drop_last());
    }
}

proof fn lemma_settings_stay(w: Wait, es: Seq<WaitEvent>)
    ensures
        after_all(w, es).count == w.count,
    decreases es.len(),
{
    if es.len() > 0 {
        lemma_settings_stay(w, es.drop_last());
    }
}

/// A wait for kernel messages that cannot be told from old ones fails, and stays
/// failed whatever is read after that: it never ends well.
pub proof fn law_failed_seek_ends_the_wait(w: Wait, es: Seq<WaitEvent>, next: WaitEvent)
    requires
        w.seen < w.count,
    ensures
        w.action_after(WaitEvent::SeekFailed) == WaitAction::Failed,
        after_all(w.after(WaitEvent::SeekFailed), es).action_after(next) == WaitAction::Failed,
    decreases es.len(),
{
    if es.len() > 0 {
        law_failed_seek_ends_the_wait(w, es.drop_last(), es.last());
    }
}

/// `s` holds a capital letter.
pub open spec fn has_capital(s: Seq<char>) -> bool {
    exists|i: int| 0 <= i < s.len() && 'A' <= #[trigger] s[i] <= 'Z'
}

proof fn lemma_capital_is_missing(s: Seq<char>, marker: Seq<char>)
    requires
        !has_capital(s),
        has_capital(marker),
    ensures
        !text::has_substring(s, marker),
{
    if text::has_substring(s, marker) {
        let i = choose|i: int| text::occurs_at(s, marker, i);
        let k = choose|k: int| 0 <= k < marker.len() && 'A' <= #[trigger] marker[k] <= 'Z';
        assert(s.subrange(i, i + marker.len())[k] == s[i + k]);
    }
}

/// A wait for kernel messages does not feed on its own log lines, which go to the
/// kernel log too: none of them holds a marker with a capital letter.
pub proof fn law_status_lines_are_marker_free(w: Wait, event: WaitEvent)
    requires
        w.source == Source::Kmsg,
        has_capital(w.marker@),
    ensures
        match w.message_after(event) {
            Some(message) => !text::has_substring(message, w.marker@),
            None => true,
        },
{
    let v = w.after(event);
    reveal_strlit("wait_for_kmsg_count: count=0, returning immediately");
    reveal_strlit("wait_for_kmsg_count: waiting for ");
    reveal_strlit(" occurrence(s) in /dev/kmsg (timeout ");
    reveal_strlit("s)");
    reveal_strlit("wait_for_kmsg_count: matched ");
    reveal_strlit("/");
    text::lemma_decimal_is_digits(w.count as nat);
    text::lemma_decimal_is_digits(v.seen as nat);
    text::lemma_decimal_is_digits(w.timeout_secs as nat);
    assert(!has_capital("wait_for_kmsg_count: count=0, returning immediately"@));
    assert(!has_capital("wait_for_kmsg_count: waiting for "@));
    assert(!has_capital(" occurrence(s) in /dev/kmsg (timeout "@));
    assert(!has_capital("s)"@));
    assert(!has_capital("wait_for_kmsg_count: matched "@));
    assert(!has_capital("/"@));
    let count = text::decimal(w.count as nat);
    let seen = text::decimal(v.seen as nat);
    let secs = text::decimal(w.timeout_secs as nat);
    let a = "wait_for_kmsg_count: waiting for "@;
    let b = " occurrence(s) in /dev/kmsg (timeout "@;
    lemma_no_capital_in_sum(a, count);
    lemma_no_capital_in_sum(a + count, b);
    lemma_no_capital_in_sum(a + count + b, secs);
    lemma_no_capital_in_sum(a + count + b + secs, "s)"@);
    let c = "wait_for_kmsg_count: matched "@;
    lemma_no_capital_in_sum(c, seen);
    lemma_no_capital_in_sum(c + seen, "/"@);
    lemma_no_capital_in_sum(c + seen + "/"@, count);
    lemma_capital_is_missing(w.start_text(), w.marker@);
    lemma_capital_is_missing(v.match_text(), w.marker@);
}

proof fn lemma_no_capital_in_sum(a: Seq<char>, b: Seq<char>)
    requires
        !has_capital(a),
        !has_capital(b),
    ensures
        !has_capital(a + b),
{
    assert forall|i: int| 0 <= i < (a + b).len() implies !('A' <= #[trigger] (a + b)[i] <= 'Z') by {
        if i < a.len() {
            assert((a + b)[i] == a[i]);
        } else {
            assert((a + b)[i] == b[i - a.len()]);
        }
    }
}

/// A line that is read counts exactly if the whole marker, every character of it in one
/// piece, stands in the line; then the wait is done exactly if that was the last one
/// that was waited for, and otherwise it goes on with another turn.
pub proof fn law_line_counts_exactly_if_it_holds_the_marker(w: Wait, line: String)
    ensures
        ({
            let event = WaitEvent::Read(ReadOutcome::Line(line));
            let holds = exists|i: int, j: int|
                0 <= i <= j <= line@.len() && #[trigger] line@.subrange(i, j) == w.marker@;
            let reads = w.stage == WaitStage::Reading && w.seen < w.count;
            &&& w.after(event).seen == w.seen + (if reads && holds {
                1int
            } else {
                0
            })
            &&& w.seen_after(event) == w.after(event).seen
            &&& w.after(event).stage == w.stage
            &&& reads && holds && w.seen + 1 == w.count ==> w.action_after(event)
                == WaitAction::Done
            &&& reads && !(holds && w.seen + 1 == w.count) ==> w.action_after(event) == (
            WaitAction::Turn { drain: w.source == Source::Log })
        }),
{
    let m = w.marker@;
    text::law_substring(line@, m);
}

/// A read without a line changes nothing and is followed by a pause: half a second for
/// a log, a fifth of a second for the kernel log.
pub proof fn law_no_line_is_followed_by_a_pause(w: Wait, read: ReadOutcome)
    requires
        w.stage == WaitStage::Reading,
        w.seen < w.count,
        !(read is Line),
    ensures
        w.after(WaitEvent::Read(read)) == w,
        w.source == Source::Log ==> w.action_after(WaitEvent::Read(read)) == WaitAction::Sleep(500),
        w.source == Source::Kmsg ==> w.action_after(WaitEvent::Read(read)) == WaitAction::Sleep(
            200,
        ),
{
}

/// A turn times out exactly if it begins later than the timeout, to the nanosecond, and
/// otherwise asks for a line. Looking at the clock, and a pause, change nothing.
pub proof fn law_time_is_up_after_the_timeout(w: Wait, elapsed_ns: u128)
    requires
        w.stage == WaitStage::Reading,
        w.seen < w.count,
    ensures
        w.after(WaitEvent::Turn(elapsed_ns)) == w,
        w.action_after(WaitEvent::Turn(elapsed_ns)) == (if elapsed_ns > 1_000_000_000
            * w.timeout_secs {
            WaitAction::TimedOut
        } else {
            WaitAction::Read
        }),
        w.after(WaitEvent::Slept) == w,
        w.action_after(WaitEvent::Slept) == (WaitAction::Turn { drain: w.source == Source::Log }),
{
}

/// How a wait begins: with nothing to wait for it is done at once; one for kernel
/// messages has the kernel log opened before its first turn, and fails if that fails;
/// one for a log begins its first turn.
pub proof fn law_beginning_of_a_wait(w: Wait)
    requires
        w.seen == 0,
        w.stage == (if w.source == Source::Kmsg {
            WaitStage::Opening
        } else {
            WaitStage::Reading
        }),
    ensures
        w.after(WaitEvent::Begun) == w,
        w.count == 0 ==> w.action_after(WaitEvent::Begun) == WaitAction::Done,
        w.count > 0 && w.source == Source::Log ==> w.action_after(WaitEvent::Begun) == (
        WaitAction::Turn { drain: true }),
        w.count > 0 && w.source == Source::Kmsg ==> {
            &&& w.action_after(WaitEvent::Begun) == WaitAction::OpenKmsg("/dev/kmsg")
            &&& w.action_after(WaitEvent::Opened) == (WaitAction::Turn { drain: false })
            &&& w.after(WaitEvent::Opened) == (Wait { stage: WaitStage::Reading, ..w })
            &&& w.action_after(WaitEvent::OpenFailed) == WaitAction::Failed
            &&& w.action_after(WaitEvent::SeekFailed) == WaitAction::Failed
        },
{
}

/// What a wait says, whatever it waits for: at the start of a wait for kernel messages
/// the number and the timeout, with each match how many have come of how many or, for a
/// log, the marker, and nothing else; and when the time is up what was waited for.
pub proof fn law_messages_of_a_wait(w: Wait, line: String, elapsed_ns: u128)
    requires
        w.seen < w.count,
    ensures
        w.stage == WaitStage::Opening ==> w.message_after(WaitEvent::Opened) == Some(
            "wait_for_kmsg_count: waiting for "@ + text::decimal(w.count as nat)
                + " occurrence(s) in /dev/kmsg (timeout "@ + text::decimal(w.timeout_secs as nat)
                + "s)"@,
        ),
        w.message_after(WaitEvent::Begun) is None,
        w.message_after(WaitEvent::OpenFailed) is None,
        w.message_after(WaitEvent::SeekFailed) is None,
        w.message_after(WaitEvent::Slept) is None,
        w.message_after(WaitEvent::Turn(elapsed_ns)) is None,
        ({
            let event = WaitEvent::Read(ReadOutcome::Line(line));
            let holds = exists|i: int, j: int|
                0 <= i <= j <= line@.len() && #[trigger] line@.subrange(i, j) == w.marker@;
            if w.stage == WaitStage::Reading && holds {
                w.message_after(event) == Some(
                    match w.source {
                        Source::Log => w.marker@,
                        Source::Kmsg => "wait_for_kmsg_count: matched "@ + text::decimal(
                            (w.seen + 1) as nat,
                        ) + "/"@ + text::decimal(w.count as nat),
                    },
                )
            } else {
                w.message_after(event) is None
            }
        }),
        w.source == Source::Log ==> w.timeout_text() == "timeout waiting for: "@ + w.marker@,
        w.source == Source::Kmsg ==> w.timeout_text() == "timeout waiting for "@ + w.marker@
            + " ("@ + text::decimal(w.seen as nat) + "/"@ + text::decimal(w.count as nat)
            + " seen)"@,
{
    law_line_counts_exactly_if_it_holds_the_marker(w, line);
}

/// The kernel log is read from the syslog file, and every other log from where it is.
pub proof fn law_which_log_is_read(path: Seq<char>)
    ensures
        log_path(path) == if path == "/dev/kmsg"@ {
            "/run/syslog.log"@
        } else {
            path
        },
{
}

/// The setup of kernel logging initializes the logger exactly if it was not, silences it
/// and gives each of the four kinds of socket buffer 16 MiB.
pub proof fn law_setup_of_kernel_logging(initialized: bool)
    ensures
        ({
            let ss = kernlog_steps(initialized);
            let n = ss.len() as int;
            &&& n == if initialized {
                5int
            } else {
                6
            }
            &&& !initialized ==> ss[0] is InitLogger
            &&& ss[n - 5] is SilenceLog
            &&& forall|i: int|
                n - 4 <= i < n ==> (#[trigger] ss[i]) is WriteFile && ss[i]->contents
                    == "16777216"@
            &&& ss[n - 4]->path == "/proc/sys/net/core/rmem_default"@
            &&& ss[n - 3]->path == "/proc/sys/net/core/wmem_default"@
            &&& ss[n - 2]->path == "/proc/sys/net/core/rmem_max"@
            &&& ss[n - 1]->path == "/proc/sys/net/core/wmem_max"@
        }),
{
}

/// A wait for which everything has come is done, whatever else happens, and one that has
/// failed stays failed.
pub proof fn law_ended_waits_stay(w: Wait, event: WaitEvent)
    requires
        w.seen >= w.count || w.stage == WaitStage::Failed,
    ensures
        w.after(event) == w,
        w.action_after(event) == (if w.stage == WaitStage::Failed {
            WaitAction::Failed
        } else {
            WaitAction::Done
        }),
{
}

} // verus!
