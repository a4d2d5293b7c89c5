use tello_driver::Command;
use tello_driver::ControllerState;
use tello_driver::FlightTelemetry;
use tello_driver::commands::dispatch;

fn idle() -> ControllerState {
    ControllerState {
        b: false,
        y: false,
        select: false,
        start: false,
        pad_up: false,
        pad_down: false,
        pad_left: false,
        pad_right: false,
        a: false,
        x: false,
        left: false,
        right: false,
    }
}

fn grounded() -> FlightTelemetry {
    FlightTelemetry { fly_time: 0, battery_percentage: 80 }
}

#[test]
fn start_select_grounded_takes_off() {
    let mut s = idle();
    s.start = true;
    s.select = true;
    let cmds = dispatch(&s, &grounded());
    assert_eq!(
        cmds,
        vec![
            Command::TakeOff,
            Command::StopTurn,
            Command::StopVertical,
            Command::StopForwardBack,
            Command::StopLeftRight,
        ]
    );
}

#[test]
fn start_select_airborne_lands() {
    let mut s = idle();
    s.start = true;
    s.select = true;
    let t = FlightTelemetry { fly_time: 42, battery_percentage: 80 };
    let cmds = dispatch(&s, &t);
    assert_eq!(cmds[0], Command::Land);
    assert!(!cmds.contains(&Command::TakeOff));
}

#[test]
fn start_alone_starts_engines() {
    let mut s = idle();
    s.start = true;
    let cmds = dispatch(&s, &grounded());
    assert_eq!(
        cmds,
        vec![
            Command::StartEngines,
            Command::StopTurn,
            Command::StopVertical,
            Command::StopForwardBack,
            Command::StopLeftRight,
        ]
    );
}

#[test]
fn right_wins_turn_tie() {
    let mut s = idle();
    s.right = true;
    s.left = true;
    let cmds = dispatch(&s, &grounded());
    assert_eq!(
        cmds,
        vec![
            Command::StopTurn,
            Command::TurnClockwise,
            Command::StopVertical,
            Command::StopForwardBack,
            Command::StopLeftRight,
        ]
    );
    assert!(!cmds.contains(&Command::TurnCounterClockwise));
}

#[test]
fn left_alone_turns_counter_clockwise() {
    let mut s = idle();
    s.left = true;
    let cmds = dispatch(&s, &grounded());
    assert_eq!(cmds[0], Command::StopTurn);
    assert_eq!(cmds[1], Command::TurnCounterClockwise);
}

#[test]
fn all_released_emits_exactly_the_four_stops() {
    let cmds = dispatch(&idle(), &grounded());
    assert_eq!(
        cmds,
        vec![
            Command::StopTurn,
            Command::StopVertical,
            Command::StopForwardBack,
            Command::StopLeftRight,
        ]
    );
}

#[test]
fn every_axis_resets_then_moves() {
    let mut s = idle();
    s.x = true;
    s.pad_up = true;
    s.pad_left = true;
    let cmds = dispatch(&s, &grounded());
    assert_eq!(
        cmds,
        vec![
            Command::StopTurn,
            Command::StopVertical,
            Command::Ascend,
            Command::StopForwardBack,
            Command::MoveForward,
            Command::StopLeftRight,
            Command::MoveLeft,
        ]
    );
}

#[test]
fn descend_and_backward_and_right_pad() {
    let mut s = idle();
    s.b = true;
    s.pad_down = true;
    s.pad_right = true;
    let cmds = dispatch(&s, &grounded());
    assert_eq!(
        cmds,
        vec![
            Command::StopTurn,
            Command::StopVertical,
            Command::Descend,
            Command::StopForwardBack,
            Command::MoveBackward,
            Command::StopLeftRight,
            Command::MoveRight,
        ]
    );
}

#[test]
fn ascend_wins_over_descend() {
    let mut s = idle();
    s.x = true;
    s.b = true;
    let cmds = dispatch(&s, &grounded());
    assert!(cmds.contains(&Command::Ascend));
    assert!(!cmds.contains(&Command::Descend));
}
