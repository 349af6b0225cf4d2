//! Start-up telemetry, and the order of its end with the boot diagnostic.

use vstd::prelude::*;
use vstd::string::*;

verus! {

pub const PROGRESS_INTERVAL_MS: u64 = 100;

/// Keeps the end of the preparation's stream ordered after the publication of a boot error: as long
/// as the extra writer is retained, the reader cannot see the end.
pub struct StartupFailureChannel<W> {
    writer: Option<W>,
}

impl<W> View for StartupFailureChannel<W> {
    type V = Option<W>;

    /// The retained writer.
    closed spec fn view(&self) -> Option<W> {
        self.writer
    }
}

impl<W> StartupFailureChannel<W> {
    pub fn new() -> (channel: StartupFailureChannel<W>)
        ensures
            channel@ is None,
    {
        StartupFailureChannel { writer: None }
    }

    /// Store the writer itself. It is duplicated only afterwards: even a failed duplication must
    /// not let the end race the diagnostic.
    pub fn retain(&mut self, writer: W)
        ensures
            final(self)@ == Some(writer),
    {
        self.writer = Some(writer);
    }

    /// The retained writer, to be duplicated.
    pub fn retained(&self) -> (writer: Option<&W>)
        ensures
            match writer {
                Some(writer) => self@ == Some(*writer),
                None => self@ is None,
            },
    {
        self.writer.as_ref()
    }

    /// Let the stream end.
    pub fn release(&mut self) -> (writer: Option<W>)
        ensures
            writer == old(self)@,
            final(self)@ is None,
    {
        self.writer.take()
    }
}

/// The diagnostic that the creator of the runtime reads when it failed to start.
pub struct BootDiagnostic {
    pub message: String,
}

/// The diagnostic of a failure: its actual cause, which must not be replaced by its consequences.
pub fn publish_failure(cause: &String) -> (diagnostic: BootDiagnostic)
    ensures
        diagnostic.message@ == cause@,
{
    BootDiagnostic { message: cause.clone() }
}

/// Where the start-up stands.
#[derive(Clone, Copy, Debug, PartialEq, Eq, Structural)]
pub enum StartupPhase {
    PreparingSnapshot,
    /// Another phase, by its number.
    Other(u8),
    /// The last phase on this channel.
    Activating,
}

/// One cumulative report.
#[derive(Clone, Copy, Debug, PartialEq, Eq, Structural)]
pub struct StartupProgress {
    pub phase: StartupPhase,
    pub completed_bytes: u64,
    pub total_bytes: Option<u64>,
}

impl StartupProgress {
    /// A report that says no more than the phase.
    pub fn phase(phase: StartupPhase) -> (progress: StartupProgress)
        ensures
            progress == (StartupProgress { phase, completed_bytes: 0, total_bytes: None }),
    {
        StartupProgress { phase, completed_bytes: 0, total_bytes: None }
    }
}

/// What was last handed to the telemetry writer.
pub struct ProgressThrottle {
    last_at_ms: u64,
    last_phase: StartupPhase,
}

/// What was last handed to the telemetry writer.
pub ghost struct ThrottleState {
    pub last_at_ms: u64,
    pub last_phase: StartupPhase,
}

impl View for ProgressThrottle {
    type V = ThrottleState;

    closed spec fn view(&self) -> ThrottleState {
        ThrottleState { last_at_ms: self.last_at_ms, last_phase: self.last_phase }
    }
}

/// Whether a report is handed on: a new phase, after an interval, or at completion.
pub open spec fn is_due(throttle: ThrottleState, now_ms: u64, progress: StartupProgress) -> bool {
    ||| progress.phase != throttle.last_phase
    ||| now_ms - throttle.last_at_ms >= PROGRESS_INTERVAL_MS
    ||| progress.total_bytes == Some(progress.completed_bytes)
}

impl ProgressThrottle {
    pub fn new(now_ms: u64, initial: StartupPhase) -> (throttle: ProgressThrottle)
        ensures
            throttle@ == (ThrottleState { last_at_ms: now_ms, last_phase: initial }),
    {
        ProgressThrottle { last_at_ms: now_ms, last_phase: initial }
    }

    /// Whether to hand a report on. Times are those of a clock that does not go back.
    pub fn report(&mut self, now_ms: u64, progress: StartupProgress) -> (due: bool)
        requires
            old(self)@.last_at_ms <= now_ms,
        ensures
            due == is_due(old(self)@, now_ms, progress),
            final(self)@ == if due {
                ThrottleState { last_at_ms: now_ms, last_phase: progress.phase }
            } else {
                old(self)@
            },
    {
        let complete = match progress.total_bytes {
            Some(total) => total == progress.completed_bytes,
            None => false,
        };
        if progress.phase != self.last_phase || now_ms - self.last_at_ms >= PROGRESS_INTERVAL_MS
            || complete {
            self.last_at_ms = now_ms;
            self.last_phase = progress.phase;
            true
        } else {
            false
        }
    }
}

/// What the telemetry writer does after a report.
#[derive(Clone, Copy, Debug, PartialEq, Eq, Structural)]
pub enum TelemetryStep {
    /// Wait for the next report.
    Wait,
    /// Stop. Losing telemetry is never a reason to fail a healthy runtime.
    Stop,
    /// The activation was flushed: let the stream end, then stop.
    ReleaseAndStop,
}

/// Decide after a report was encoded, or not, and written and flushed, or not.
pub fn telemetry_step(phase: StartupPhase, encoded: bool, flushed: bool) -> (step: TelemetryStep)
    ensures
        step == if !encoded || !flushed {
            TelemetryStep::Stop
        } else if phase == StartupPhase::Activating {
            TelemetryStep::ReleaseAndStop
        } else {
            TelemetryStep::Wait
        },
{
    if !encoded || !flushed {
        TelemetryStep::Stop
    } else if phase == StartupPhase::Activating {
        TelemetryStep::ReleaseAndStop
    } else {
        TelemetryStep::Wait
    }
}

/// A change of phase is always handed on.
pub proof fn phase_changes_are_reported(
    throttle: ThrottleState,
    now_ms: u64,
    progress: StartupProgress,
)
    requires
        progress.phase != throttle.last_phase,
    ensures
        is_due(throttle, now_ms, progress),
{
}

/// A report is held back exactly where it brings nothing new: the same phase, less than a tenth of a
/// second after the last one, and not complete.
pub proof fn only_repeated_reports_are_held_back(
    throttle: ThrottleState,
    now_ms: u64,
    progress: StartupProgress,
)
    ensures
        !is_due(throttle, now_ms, progress) <==> progress.phase == throttle.last_phase && now_ms
            < throttle.last_at_ms + 100 && !(progress.total_bytes matches Some(total) && total
            == progress.completed_bytes),
{
}

} // verus!
