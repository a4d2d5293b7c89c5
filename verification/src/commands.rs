//! Pure mapping from button state and telemetry to flight commands.
//!
//! Each dispatch cycle emits an ordered command sequence: an optional
//! take-off/land or engine-start decision first, then one segment per
//! control axis. Every axis always resets to its stop command before a
//! direction is conditionally applied, modeling a level-triggered RC
//! stick rather than an edge-triggered button.

use vstd::prelude::*;

use crate::controller::ControllerState;

verus! {

/// A discrete flight-control intent directed at the drone.
#[derive(Clone, Copy, Debug, PartialEq, Eq, Structural)]
pub enum Command {
    TakeOff,
    Land,
    StartEngines,
    TurnClockwise,
    TurnCounterClockwise,
    StopTurn,
    Ascend,
    Descend,
    StopVertical,
    MoveForward,
    MoveBackward,
    StopForwardBack,
    MoveLeft,
    MoveRight,
    StopLeftRight,
}

/// Live flight status read from the drone: elapsed flight seconds
/// (zero when grounded) and remaining battery percentage.
#[derive(Clone, Copy, Debug, PartialEq, Eq, Structural)]
pub struct FlightTelemetry {
    pub fly_time: u16,
    pub battery_percentage: u8,
}

/// The take-off/land/engine segment: start together with select lands
/// an airborne craft and starts a grounded one; start alone only spins
/// the engines up.
pub open spec fn flight_segment(s: ControllerState, t: FlightTelemetry) -> Seq<Command> {
    if s.start && s.select {
        if t.fly_time > 0 {
            seq![Command::Land]
        } else {
            seq![Command::TakeOff]
        }
    } else if s.start {
        seq![Command::StartEngines]
    } else {
        Seq::<Command>::empty()
    }
}

/// The turn axis: always stop first, then clockwise on `right`, else
/// counter-clockwise on `left`; `right` wins a tie.
pub open spec fn turn_segment(s: ControllerState) -> Seq<Command> {
    seq![Command::StopTurn] + if s.right {
        seq![Command::TurnClockwise]
    } else if s.left {
        seq![Command::TurnCounterClockwise]
    } else {
        Seq::<Command>::empty()
    }
}

/// The vertical axis: always stop first, then ascend on `x`, else
/// descend on `b`.
pub open spec fn vertical_segment(s: ControllerState) -> Seq<Command> {
    seq![Command::StopVertical] + if s.x {
        seq![Command::Ascend]
    } else if s.b {
        seq![Command::Descend]
    } else {
        Seq::<Command>::empty()
    }
}

/// The forward/back axis: always stop first, then forward on the up
/// pad, else backward on the down pad.
pub open spec fn forward_back_segment(s: ControllerState) -> Seq<Command> {
    seq![Command::StopForwardBack] + if s.pad_up {
        seq![Command::MoveForward]
    } else if s.pad_down {
        seq![Command::MoveBackward]
    } else {
        Seq::<Command>::empty()
    }
}

/// The left/right axis: always stop first, then left on the left pad,
/// else right on the right pad.
pub open spec fn left_right_segment(s: ControllerState) -> Seq<Command> {
    seq![Command::StopLeftRight] + if s.pad_left {
        seq![Command::MoveLeft]
    } else if s.pad_right {
        seq![Command::MoveRight]
    } else {
        Seq::<Command>::empty()
    }
}

/// The whole dispatch: the flight segment, then the four axis segments
/// in their fixed order.
pub open spec fn dispatch_spec(s: ControllerState, t: FlightTelemetry) -> Seq<Command> {
    flight_segment(s, t) + turn_segment(s) + vertical_segment(s) + forward_back_segment(s)
        + left_right_segment(s)
}

/// Appends the flight segment for this snapshot and telemetry.
fn push_flight(cmds: &mut Vec<Command>, s: &ControllerState, t: &FlightTelemetry)
    ensures
        final(cmds)@ == old(cmds)@ + flight_segment(*s, *t),
{
    if s.start && s.select {
        if t.fly_time > 0 {
            cmds.push(Command::Land);
        } else {
            cmds.push(Command::TakeOff);
        }
    } else if s.start {
        cmds.push(Command::StartEngines);
    }
    assert(cmds@ =~= old(cmds)@ + flight_segment(*s, *t));
}

/// Appends the turn-axis segment for this snapshot.
fn push_turn(cmds: &mut Vec<Command>, s: &ControllerState)
    ensures
        final(cmds)@ == old(cmds)@ + turn_segment(*s),
{
    cmds.push(Command::StopTurn);
    if s.right {
        cmds.push(Command::TurnClockwise);
    } else if s.left {
        cmds.push(Command::TurnCounterClockwise);
    }
    assert(cmds@ =~= old(cmds)@ + turn_segment(*s));
}

/// Appends the vertical-axis segment for this snapshot.
fn push_vertical(cmds: &mut Vec<Command>, s: &ControllerState)
    ensures
        final(cmds)@ == old(cmds)@ + vertical_segment(*s),
{
    cmds.push(Command::StopVertical);
    if s.x {
        cmds.push(Command::Ascend);
    } else if s.b {
        cmds.push(Command::Descend);
    }
    assert(cmds@ =~= old(cmds)@ + vertical_segment(*s));
}

/// Appends the forward/back-axis segment for this snapshot.
fn push_forward_back(cmds: &mut Vec<Command>, s: &ControllerState)
    ensures
        final(cmds)@ == old(cmds)@ + forward_back_segment(*s),
{
    cmds.push(Command::StopForwardBack);
    if s.pad_up {
        cmds.push(Command::MoveForward);
    } else if s.pad_down {
        cmds.push(Command::MoveBackward);
    }
    assert(cmds@ =~= old(cmds)@ + forward_back_segment(*s));
}

/// Appends the left/right-axis segment for this snapshot.
fn push_left_right(cmds: &mut Vec<Command>, s: &ControllerState)
    ensures
        final(cmds)@ == old(cmds)@ + left_right_segment(*s),
{
    cmds.push(Command::StopLeftRight);
    if s.pad_left {
        cmds.push(Command::MoveLeft);
    } else if s.pad_right {
        cmds.push(Command::MoveRight);
    }
    assert(cmds@ =~= old(cmds)@ + left_right_segment(*s));
}

/// Maps one button snapshot and the current telemetry to the ordered
/// command sequence for this cycle.
pub fn dispatch(s: &ControllerState, t: &FlightTelemetry) -> (cmds: Vec<Command>)
    ensures
        cmds@ == dispatch_spec(*s, *t),
{
    let mut cmds: Vec<Command> = Vec::new();
    push_flight(&mut cmds, s, t);
    push_turn(&mut cmds, s);
    push_vertical(&mut cmds, s);
    push_forward_back(&mut cmds, s);
    push_left_right(&mut cmds, s);
    assert(cmds@ =~= dispatch_spec(*s, *t));
    cmds
}

/// With `right` held, the turn axis emits stop-turn followed by the
/// clockwise turn, and the whole dispatch never emits the
/// counter-clockwise turn: `right` wins any tie with `left`.
pub proof fn lemma_right_wins_tie(s: ControllerState, t: FlightTelemetry)
    requires
        s.right,
    ensures
        turn_segment(s) == seq![Command::StopTurn, Command::TurnClockwise],
        forall|i: int|
            0 <= i < dispatch_spec(s, t).len() ==> dispatch_spec(s, t)[i]
                != Command::TurnCounterClockwise,
{
    assert(turn_segment(s) =~= seq![Command::StopTurn, Command::TurnClockwise]);
}

/// With every direction button released, the dispatch emits exactly
/// the four axis stop commands, in their fixed order, and nothing
/// else. (`start` must be released too: held, it would add an engine
/// or take-off/land command in front.)
pub proof fn lemma_all_released_stops(s: ControllerState, t: FlightTelemetry)
    requires
        !s.start,
        !s.right,
        !s.left,
        !s.x,
        !s.b,
        !s.pad_up,
        !s.pad_down,
        !s.pad_left,
        !s.pad_right,
    ensures
        dispatch_spec(s, t) == seq![
            Command::StopTurn,
            Command::StopVertical,
            Command::StopForwardBack,
            Command::StopLeftRight,
        ],
{
    assert(dispatch_spec(s, t) =~= seq![
        Command::StopTurn,
        Command::StopVertical,
        Command::StopForwardBack,
        Command::StopLeftRight,
    ]);
}

} // verus!
