use astera::connectors::{ConnectorReport, NativeEvent, Step};
use astera::desktop::{Desktop, DesktopError};
use astera::geometry::Size;
use astera::model::OutputId;
use astera::native_policy::ModeCandidate;
use astera::presentation::{Fence, NativeLoop, Prepared, Rendered};
use astera::stacking::{drawing_order, remaining_callbacks, FrameCallback, Layer};

const RETRACE: u64 = 16_000_000;

fn mode(width: u16, preferred: bool) -> ModeCandidate {
    ModeCandidate { width, height: 1080, refresh_millihz: 60, preferred }
}

fn report(interface_id: u32) -> ConnectorReport {
    ConnectorReport {
        driven: true,
        interface: "HDMI-A".to_owned(),
        interface_id,
        edid: None,
        modes: vec![mode(1280, false), mode(1920, true), mode(800, false)],
    }
}

/// A loop with a device and an output on each of some of its connectors.
fn plugged(connectors: &[u64]) -> (NativeLoop, Desktop) {
    let mut state = NativeLoop::new();
    let mut desktop = Desktop::new(8);
    assert!(state.add_device(7));
    for &connector in connectors {
        let new = state
            .connector_connected(&mut desktop, &"card0".to_owned(), &report(connector as u32))
            .unwrap()
            .unwrap();
        state.output_initialized(&mut desktop, new.output.id, 7, connector, Some(RETRACE));
    }
    (state, desktop)
}

#[test]
fn a_connector_becomes_an_output() {
    let mut state = NativeLoop::new();
    let mut desktop = Desktop::new(8);
    let new = state
        .connector_connected(&mut desktop, &"card0".to_owned(), &report(2))
        .unwrap()
        .unwrap();
    assert_eq!(new.name, "HDMI-A-2");
    assert_eq!(new.alias, "card0:HDMI-A-2");
    assert_eq!(new.mode, 1);
    assert_eq!(new.output.id, OutputId(1));
    assert_eq!(new.output.stable_key, "card0:HDMI-A-2");
    assert_eq!(new.output.logical_size, Size::new(1920, 1080));
    assert_eq!(desktop.output(OutputId(1)).unwrap().physical_size, Size::new(1920, 1080));
    assert_eq!(state.next_output_id, 2);
}

#[test]
fn a_connector_that_cannot_be_used_is_passed_over() {
    let mut state = NativeLoop::new();
    let mut desktop = Desktop::new(8);
    let device = "card0".to_owned();
    let mut undriven = report(1);
    undriven.driven = false;
    let mut modeless = report(1);
    modeless.modes = Vec::new();
    for report in [undriven, modeless] {
        assert!(state.connector_connected(&mut desktop, &device, &report).unwrap().is_none());
    }
    assert_eq!(state.next_output_id, 1);
    assert!(desktop.primary_output.is_none());
}

#[test]
fn an_output_that_cannot_be_set_up_is_taken_back() {
    let (mut state, mut desktop) = plugged(&[1]);
    let new = state
        .connector_connected(&mut desktop, &"card0".to_owned(), &report(2))
        .unwrap()
        .unwrap();
    assert!(desktop.output(new.output.id).is_some());
    state.output_initialized(&mut desktop, new.output.id, 7, 2, None);
    assert!(desktop.output(new.output.id).is_none());
    assert_eq!(state.find_connector(7, 2), None);
}

#[test]
fn a_key_that_is_taken_is_refused() {
    let (mut state, mut desktop) = plugged(&[1]);
    let error = state
        .connector_connected(&mut desktop, &"card0".to_owned(), &report(1))
        .unwrap_err();
    assert!(matches!(error, DesktopError::DuplicateOutputStableKey(_)));
    assert_eq!(state.next_output_id, 3);
}

#[test]
fn a_plug_is_pulled() {
    let (mut state, mut desktop) = plugged(&[1, 2]);
    assert_eq!(state.connector_disconnected(&mut desktop, 7, 9, true), None);
    assert_eq!(state.connector_disconnected(&mut desktop, 7, 2, true), Some(OutputId(2)));
    assert!(desktop.output(OutputId(2)).is_none());
    assert_eq!(state.scheduler.phase(OutputId(2)), None);
    assert_eq!(state.connector_disconnected(&mut desktop, 7, 2, true), None);
    assert_eq!(desktop.primary_output, Some(OutputId(1)));

    assert_eq!(state.connector_disconnected(&mut desktop, 7, 1, false), Some(OutputId(1)));
    assert_eq!(state.find_connector(7, 1), None);
    assert_eq!(state.scheduler.phase(OutputId(1)), None);
    assert!(state.surfaces.contains_key(1));
    assert!(state.remove_device(7).is_empty());
    assert!(!state.surfaces.contains_key(1));
}

#[test]
fn a_device_takes_its_outputs_along() {
    let (mut state, mut desktop) = plugged(&[1, 2]);
    let (step, changed) = state.process_event(&mut desktop, NativeEvent::DeviceRemoved(7), 0);
    let Step::ForgetDevice { device, outputs } = step else { panic!("the device has gone") };
    assert_eq!((device, outputs), (7, vec![OutputId(1), OutputId(2)]));
    assert!(!changed);
    assert!(desktop.primary_output.is_none());
    let (step, _) = state.process_event(&mut desktop, NativeEvent::DeviceChanged(7), 0);
    assert!(matches!(step, Step::Nothing));
}

#[test]
fn events_ask_for_steps() {
    let (mut state, mut desktop) = plugged(&[1]);
    let (step, changed) = state.process_event(&mut desktop, NativeEvent::Input, 0);
    assert!(matches!(step, Step::HandleInput) && changed);
    let (step, changed) = state.process_event(&mut desktop, NativeEvent::WaylandReady, 0);
    assert!(matches!(step, Step::DispatchClients) && changed);
    let (step, changed) = state.process_event(&mut desktop, NativeEvent::ConfigChanged, 0);
    assert!(matches!(step, Step::ReadConfig) && !changed);
    let (step, _) = state.process_event(&mut desktop, NativeEvent::DeviceChanged(7), 0);
    assert!(matches!(step, Step::ScanConnectors(7)));
    let (step, _) = state.process_event(&mut desktop, NativeEvent::DeviceAdded(8), 0);
    assert!(matches!(step, Step::SetUpDevice(8)));
    let (step, _) = state.process_event(&mut desktop, NativeEvent::DeviceAdded(7), 0);
    assert!(matches!(step, Step::Nothing));

    let (step, _) = state.process_event(&mut desktop, NativeEvent::PauseSession, 0);
    assert!(matches!(step, Step::SuspendInput));
    for event in [NativeEvent::DeviceAdded(8), NativeEvent::DeviceChanged(7)] {
        let (step, _) = state.process_event(&mut desktop, event, 0);
        assert!(matches!(step, Step::Nothing));
    }
    let (step, _) = state.process_event(&mut desktop, NativeEvent::ActivateSession, 0);
    let Step::ResumeInput { devices, deferred } = step else { panic!("the session is back") };
    assert_eq!((devices, deferred), (vec![7], vec![8]));
}

#[test]
fn a_fence_is_answered_once() {
    let (mut state, mut desktop) = plugged(&[1]);
    let request = state.render_all(0)[0];
    let fence = Fence { needed: true, composed: true, exported: Some(true), reached: false };
    assert_eq!(state.render_output(request, Rendered::Drawn(fence), None, 0), None);
    let frame = Prepared {
        output: OutputId(1),
        frame_id: request.frame_id,
        lock_generation: None,
        power_mode: None,
    };
    let (step, _) = state.process_event(&mut desktop, NativeEvent::FenceReady(frame), 1);
    assert!(matches!(step, Step::QueueFrame(queued) if queued == frame));
    let (step, _) = state.process_event(&mut desktop, NativeEvent::FenceReady(frame), 1);
    assert!(matches!(step, Step::Nothing));
    let (step, _) = state.process_event(&mut desktop, NativeEvent::Shown(OutputId(1)), 1);
    assert!(matches!(step, Step::RetireFrame(OutputId(1))));
}

#[test]
fn a_failed_device_draws_again() {
    let (mut state, mut desktop) = plugged(&[1]);
    let request = state.render_all(0)[0];
    state.render_output(request, Rendered::Empty, None, 0);
    state.process_event(&mut desktop, NativeEvent::DeviceFailed(7), 10);
    assert_eq!(state.next_wait(false, None, None, None, false, 10), Some(RETRACE));
}

#[test]
fn the_loop_waits_until_something_is_due() {
    let (mut state, _) = plugged(&[1]);
    assert_eq!(state.next_wait(false, None, None, None, false, 0), Some(0));
    let request = state.render_all(0)[0];
    state.render_output(request, Rendered::Empty, None, 0);
    assert_eq!(state.next_wait(false, None, None, None, false, 0), Some(RETRACE));
    assert_eq!(state.next_wait(true, None, None, None, false, 0), Some(0));
    assert_eq!(state.next_wait(false, Some(50), Some(40), None, false, 10), Some(30));
    assert_eq!(state.next_wait(false, None, None, Some(20), false, 10), Some(10));
    assert_eq!(state.next_wait(false, None, None, Some(20), true, 10), Some(RETRACE - 10));
    assert_eq!(NativeLoop::new().next_wait(false, None, None, None, false, 10), None);
}

#[test]
fn popups_lie_over_their_roots_and_the_pointer_over_all() {
    assert_eq!(
        drawing_order(&vec![2, 0], true, true),
        vec![
            Layer::Cursor,
            Layer::DragIcon,
            Layer::Popup { root: 0, popup: 0 },
            Layer::Popup { root: 0, popup: 1 },
            Layer::Root(0),
            Layer::Root(1),
        ]
    );
    assert_eq!(drawing_order(&vec![0], false, false), vec![Layer::Root(0)]);
    assert!(drawing_order(&Vec::new(), false, false).is_empty());
}

#[test]
fn wishes_that_came_after_the_drawing_wait_on() {
    let captured = vec![
        FrameCallback { surface: 1, callback: 10 },
        FrameCallback { surface: 2, callback: 11 },
    ];
    assert_eq!(remaining_callbacks(&captured, 1, &vec![10, 11, 12]), vec![11, 12]);
    assert_eq!(remaining_callbacks(&captured, 3, &vec![10]), vec![10]);
}
