//! Per-cycle decisions of the drone polling loop.
//!
//! The loop is a two-phase state machine: a connecting phase that
//! issues the fixed setup sequence, then an endless polling phase.
//! Each polling cycle classifies the polled event, forwards a video
//! frame verbatim, reports an unrecognized data packet, and — only
//! when telemetry is available — dispatches commands for the latest
//! controller snapshot. The cycle also budgets its sleep so a slow
//! cycle never adds artificial delay. The drone, the video sinks and
//! the clock stay outside the crate; the loop's owner performs the
//! planned actions and hands the next event back.

use vstd::prelude::*;

use crate::commands::Command;
use crate::commands::FlightTelemetry;
use crate::commands::dispatch;
use crate::commands::dispatch_spec;
use crate::controller::ControllerState;

verus! {

/// Classification of a data packet polled from the drone: the three
/// recognized kinds are discarded silently, anything else is reported
/// for diagnostics.
#[derive(Clone, Copy, Debug, PartialEq, Eq, Structural)]
pub enum PacketKind {
    Flight,
    Wifi,
    LogHeader,
    Other,
}

/// One event delivered by polling the drone: a video frame of opaque
/// bytes, a classified data packet, or nothing this cycle.
pub enum PollEvent {
    Frame(Vec<u8>),
    Data(PacketKind),
    Nothing,
}

/// A connection/setup command issued to the drone before polling
/// begins.
#[derive(Clone, Copy, Debug, PartialEq, Eq, Structural)]
pub enum SetupAction {
    Connect,
    StartVideo,
    SendDateTime,
}

/// Phase of the control loop's state machine.
#[derive(Clone, Copy, Debug, PartialEq, Eq, Structural)]
pub enum LoopPhase {
    Connecting,
    Polling,
}

/// Everything one polling cycle decided: the frame bytes to forward
/// verbatim to the video sinks, whether to report an unrecognized
/// packet, and the commands to apply to the drone, in order.
pub struct CyclePlan {
    pub forward_frame: Option<Vec<u8>>,
    pub report_unknown: bool,
    pub commands: Vec<Command>,
}

/// A data packet is reported exactly when its kind is unrecognized.
pub open spec fn packet_reported(kind: PacketKind) -> bool {
    kind == PacketKind::Other
}

/// The control loop's own state: its phase and its target cycle
/// period in milliseconds.
pub struct ControlLoop {
    phase: LoopPhase,
    period_ms: u64,
}

impl ControlLoop {
    /// The loop's current phase.
    pub closed spec fn phase(&self) -> LoopPhase {
        self.phase
    }

    /// The target cycle period in milliseconds.
    pub closed spec fn period(&self) -> u64 {
        self.period_ms
    }

    /// A loop about to connect, with the given target cycle period.
    pub fn new(period_ms: u64) -> (l: ControlLoop)
        requires
            period_ms > 0,
        ensures
            l.phase() == LoopPhase::Connecting,
            l.period() == period_ms,
    {
        ControlLoop { phase: LoopPhase::Connecting, period_ms }
    }

    /// Leaves the connecting phase: hands back the fixed setup
    /// sequence to issue to the drone — any failure there is fatal to
    /// the process — and enters the polling phase.
    pub fn begin(&mut self) -> (actions: Vec<SetupAction>)
        requires
            old(self).phase() == LoopPhase::Connecting,
        ensures
            final(self).phase() == LoopPhase::Polling,
            final(self).period() == old(self).period(),
            actions@ == seq![SetupAction::Connect, SetupAction::StartVideo, SetupAction::SendDateTime],
    {
        self.phase = LoopPhase::Polling;
        let mut actions: Vec<SetupAction> = Vec::new();
        actions.push(SetupAction::Connect);
        actions.push(SetupAction::StartVideo);
        actions.push(SetupAction::SendDateTime);
        proof {
            assert(actions@ =~= seq![
                SetupAction::Connect,
                SetupAction::StartVideo,
                SetupAction::SendDateTime,
            ]);
        }
        actions
    }

    /// Whether the loop has entered its polling phase.
    pub fn is_polling(&self) -> (r: bool)
        ensures
            r == (self.phase() == LoopPhase::Polling),
    {
        matches!(self.phase, LoopPhase::Polling)
    }

    /// Decides one polling cycle: a frame's bytes are forwarded
    /// verbatim, an unrecognized packet is reported, and commands are
    /// dispatched for the latest snapshot exactly when telemetry is
    /// available — without it the cycle skips dispatch rather than
    /// fail or wait.
    pub fn cycle(
        &self,
        event: PollEvent,
        telemetry: Option<FlightTelemetry>,
        latest: &ControllerState,
    ) -> (plan: CyclePlan)
        requires
            self.phase() == LoopPhase::Polling,
        ensures
            (match event {
                PollEvent::Frame(buf) => plan.forward_frame matches Some(f) && f@ == buf@,
                PollEvent::Data(_) => plan.forward_frame is None,
                PollEvent::Nothing => plan.forward_frame is None,
            }),
            plan.report_unknown == (match event {
                PollEvent::Data(kind) => packet_reported(kind),
                _ => false,
            }),
            plan.commands@ == (match telemetry {
                Some(t) => dispatch_spec(*latest, t),
                None => Seq::<Command>::empty(),
            }),
    {
        let (forward_frame, report_unknown): (Option<Vec<u8>>, bool) = match event {
            PollEvent::Frame(buf) => (Some(buf), false),
            PollEvent::Data(kind) => (None, matches!(kind, PacketKind::Other)),
            PollEvent::Nothing => (None, false),
        };
        let commands: Vec<Command> = match telemetry {
            Some(t) => dispatch(latest, &t),
            None => Vec::new(),
        };
        CyclePlan { forward_frame, report_unknown, commands }
    }

    /// How long to sleep after a cycle that took `elapsed_ms`: the
    /// remainder of the period, and nothing at all once the cycle ran
    /// over — a slow cycle never compounds artificial delay.
    pub fn sleep_budget(&self, elapsed_ms: u64) -> (r: u64)
        ensures
            elapsed_ms >= self.period() ==> r == 0,
            elapsed_ms < self.period() ==> r == self.period() - elapsed_ms,
    {
        if elapsed_ms >= self.period_ms {
            0
        } else {
            self.period_ms - elapsed_ms
        }
    }
}

} // verus!
