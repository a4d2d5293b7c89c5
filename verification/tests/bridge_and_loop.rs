use tello_driver::Command;
use tello_driver::ControlLoop;
use tello_driver::ControllerState;
use tello_driver::FlightTelemetry;
use tello_driver::StateBridge;
use tello_driver::commands::dispatch;
use tello_driver::control::PacketKind;
use tello_driver::control::PollEvent;
use tello_driver::control::SetupAction;

fn state(start: bool) -> ControllerState {
    ControllerState {
        b: false,
        y: false,
        select: false,
        start,
        pad_up: false,
        pad_down: false,
        pad_left: false,
        pad_right: false,
        a: false,
        x: false,
        left: false,
        right: false,
    }
}

#[test]
fn thousand_sends_never_block_and_latest_is_observed() {
    let mut bridge = StateBridge::new(4);
    let mut accepted = 0;
    for i in 0..1000 {
        if bridge.try_send(state(i % 2 == 0)) {
            accepted += 1;
        }
    }
    assert_eq!(accepted, 4);
    assert_eq!(bridge.len(), 4);
    // The last snapshot that got through was the fourth send.
    assert_eq!(bridge.recv_latest(), Some(state(3 % 2 == 0)));
    assert_eq!(bridge.len(), 0);
    // Once the consumer drained the queue, the next send gets through
    // and is observed: no indefinite staleness.
    assert!(bridge.try_send(state(true)));
    assert_eq!(bridge.recv_latest(), Some(state(true)));
}

#[test]
fn empty_bridge_means_no_new_input() {
    let mut bridge = StateBridge::new(2);
    assert_eq!(bridge.recv_latest(), None);
}

#[test]
fn receive_drains_to_the_most_recent() {
    let mut bridge = StateBridge::new(8);
    assert!(bridge.try_send(state(false)));
    assert!(bridge.try_send(state(false)));
    assert!(bridge.try_send(state(true)));
    assert_eq!(bridge.recv_latest(), Some(state(true)));
    assert_eq!(bridge.recv_latest(), None);
}

#[test]
fn setup_sequence_then_polling() {
    let mut l = ControlLoop::new(50);
    let actions = l.begin();
    assert_eq!(
        actions,
        vec![SetupAction::Connect, SetupAction::StartVideo, SetupAction::SendDateTime]
    );
}

#[test]
fn video_frame_is_forwarded_verbatim() {
    let mut l = ControlLoop::new(50);
    l.begin();
    let bytes = vec![1u8, 2, 3, 4];
    let plan = l.cycle(PollEvent::Frame(bytes.clone()), None, &state(false));
    assert_eq!(plan.forward_frame, Some(bytes));
    assert!(!plan.report_unknown);
}

#[test]
fn known_packets_are_discarded_silently() {
    let mut l = ControlLoop::new(50);
    l.begin();
    for kind in [PacketKind::Flight, PacketKind::Wifi, PacketKind::LogHeader] {
        let plan = l.cycle(PollEvent::Data(kind), None, &state(false));
        assert!(!plan.report_unknown);
        assert_eq!(plan.forward_frame, None);
    }
}

#[test]
fn unknown_packet_is_reported() {
    let mut l = ControlLoop::new(50);
    l.begin();
    let plan = l.cycle(PollEvent::Data(PacketKind::Other), None, &state(false));
    assert!(plan.report_unknown);
}

#[test]
fn missing_telemetry_skips_dispatch() {
    let mut l = ControlLoop::new(50);
    l.begin();
    let plan = l.cycle(PollEvent::Nothing, None, &state(true));
    assert!(plan.commands.is_empty());
}

#[test]
fn telemetry_dispatches_for_the_latest_snapshot() {
    let mut l = ControlLoop::new(50);
    l.begin();
    let t = FlightTelemetry { fly_time: 0, battery_percentage: 90 };
    let s = state(true);
    let plan = l.cycle(PollEvent::Nothing, Some(t), &s);
    assert_eq!(plan.commands, dispatch(&s, &t));
    assert_eq!(plan.commands[0], Command::StartEngines);
}

#[test]
fn slow_cycle_sleeps_nothing() {
    let mut l = ControlLoop::new(50);
    l.begin();
    assert_eq!(l.sleep_budget(60), 0);
    assert_eq!(l.sleep_budget(50), 0);
    assert_eq!(l.sleep_budget(10), 40);
    assert_eq!(l.sleep_budget(0), 50);
}
