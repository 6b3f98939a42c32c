use astera::event_queue::{
    enqueue_native, enqueue_nested, take_batch, Admission, SourceEvent, MAX_EVENTS_PER_BATCH,
    MAX_QUEUED_EVENTS,
};
use astera::model::OutputId;
use astera::nested::{earliest, wait_for, NestedLoop, FRAME_RETRY_INITIAL, FRAME_RETRY_MAX};
use astera::presentation::{
    Fence, NativeLoop, Prepared, Rendered, Retired, DEFAULT_RETRACE, FENCE_RECHECK_INITIAL, FENCE_TIMEOUT,
};
use astera::runtime::{OutputPhase, RepaintReasons};

const OUTPUT: OutputId = OutputId(3);
const RETRACE: u64 = 16_000_000;
const WAITING: Rendered =
    Rendered::Drawn(Fence { needed: true, composed: true, exported: None, reached: false });
const EXPORTED: Rendered =
    Rendered::Drawn(Fence { needed: true, composed: true, exported: Some(true), reached: false });

#[test]
fn readiness_is_queued_once() {
    let mut events = Vec::new();
    for event in [
        SourceEvent::IpcReady,
        SourceEvent::Other(1),
        SourceEvent::IpcReady,
        SourceEvent::Other(1),
        SourceEvent::Redraw,
        SourceEvent::Redraw,
    ] {
        enqueue_nested(&mut events, event);
    }
    assert_eq!(
        events,
        vec![
            SourceEvent::IpcReady,
            SourceEvent::Other(1),
            SourceEvent::Other(1),
            SourceEvent::Redraw,
        ]
    );
}

#[test]
fn a_full_nested_queue_loses_motion_only() {
    let mut events = vec![SourceEvent::Other(0); MAX_QUEUED_EVENTS];
    enqueue_nested(&mut events, SourceEvent::Motion(1));
    assert_eq!(events.len(), MAX_QUEUED_EVENTS);
    enqueue_nested(&mut events, SourceEvent::Other(2));
    assert_eq!(events.len(), MAX_QUEUED_EVENTS + 1);
    events[5] = SourceEvent::Motion(7);
    enqueue_nested(&mut events, SourceEvent::Other(3));
    assert_eq!(events.len(), MAX_QUEUED_EVENTS + 1);
    assert!(!events.contains(&SourceEvent::Motion(7)));
    assert_eq!(events.last(), Some(&SourceEvent::Other(3)));
}

#[test]
fn a_full_native_queue_is_worked_off() {
    let mut events: Vec<SourceEvent> =
        (0..MAX_QUEUED_EVENTS as u64).map(SourceEvent::Other).collect();
    assert_eq!(enqueue_native(&mut events, SourceEvent::Motion(1)), Admission::Dropped);
    let Admission::Queued { reduced } = enqueue_native(&mut events, SourceEvent::WaylandReady)
    else {
        panic!("readiness is kept")
    };
    assert_eq!(reduced.len(), MAX_EVENTS_PER_BATCH);
    assert_eq!(reduced[0], SourceEvent::Other(0));
    assert_eq!(events.len(), MAX_QUEUED_EVENTS - MAX_EVENTS_PER_BATCH + 1);
    assert_eq!(enqueue_native(&mut events, SourceEvent::WaylandReady), Admission::Dropped);
    assert_eq!(take_batch(&mut events)[0], SourceEvent::Other(MAX_EVENTS_PER_BATCH as u64));
}

#[test]
fn the_earliest_time_decides_how_long_to_wait() {
    assert_eq!(earliest(&[None, Some(5), Some(3), None]), Some(3));
    assert_eq!(earliest(&[]), None);
    assert_eq!(wait_for(false, Some(5), 3), Some(2));
    assert_eq!(wait_for(false, Some(3), 5), Some(0));
    assert_eq!(wait_for(true, None, 5), Some(0));
    assert_eq!(wait_for(false, None, 5), None);
}

#[test]
fn the_nested_loop_draws_when_the_host_lets_it() {
    let mut state = NestedLoop::new(1280, 720);
    assert!(!state.end_round(true).request_redraw, "the host has given no size yet");
    assert!(state.resized(1280, 720));
    let round = state.end_round(false);
    assert!(round.request_redraw && !round.render);
    state.redraw();
    let round = state.end_round(false);
    assert!(!round.request_redraw && round.render);
    assert_eq!(state.buffer_age(Some(2)), 0);
    state.frame_completed();
    assert_eq!(state.buffer_age(Some(2)), 2);
    assert!(!state.scene_dirty);
    assert!(state.observe_size(640, 480));
    assert!(!state.observe_size(640, 480));
}

#[test]
fn failed_nested_frames_are_tried_again_later() {
    let mut state = NestedLoop::new(1, 1);
    state.frame_failed(100);
    assert_eq!(state.frame_retry_deadline, Some(100 + FRAME_RETRY_INITIAL));
    assert!(!state.begin_round(None, 100));
    assert!(state.begin_round(None, 100 + FRAME_RETRY_INITIAL));
    assert_eq!(state.frame_retry_deadline, None);
    for _ in 0..10 {
        state.frame_failed(0);
    }
    assert_eq!(state.frame_retry_delay, FRAME_RETRY_MAX);
    state.frame_completed();
    assert_eq!(state.frame_retry_delay, FRAME_RETRY_INITIAL);
    assert!(state.begin_round(Some(7), 7));
}

#[test]
fn shutdown_waits_for_replies_but_not_forever() {
    let mut state = NestedLoop::new(1, 1);
    assert!(!state.shutdown_complete(false, 0));
    state.begin_shutdown(10);
    state.begin_shutdown(20);
    assert_eq!(state.next_deadline(&[None, None, None]), Some(2_000_000_010));
    assert!(state.shutdown_complete(false, 10));
    assert!(!state.shutdown_complete(true, 10));
    assert!(state.shutdown_complete(true, 2_000_000_010));
}

fn running() -> NativeLoop {
    let mut state = NativeLoop::new();
    assert!(state.add_device(1));
    assert!(!state.add_device(1));
    state.add_output(OUTPUT, 1, 40, RETRACE);
    state
}

#[test]
fn a_frame_is_drawn_handed_over_and_shown() {
    let mut state = running();
    let request = state.render_all(0)[0];
    assert!(request.reasons.contains(RepaintReasons::full_repaint()));
    state.render_output(request, WAITING, Some(5), 0);
    assert_eq!(state.next_fence_check(), Some(FENCE_RECHECK_INITIAL));
    assert!(state.poll_non_exportable_fences(&Vec::new(), FENCE_RECHECK_INITIAL).is_empty());
    assert_eq!(state.next_fence_check(), Some(3 * FENCE_RECHECK_INITIAL));
    let done = state.poll_non_exportable_fences(&vec![OUTPUT], 3 * FENCE_RECHECK_INITIAL);
    assert_eq!(
        done,
        vec![Prepared {
            output: OUTPUT,
            frame_id: request.frame_id,
            lock_generation: Some(5),
            power_mode: None,
        }]
    );
    assert!(state.prepare_frame(OUTPUT, request.frame_id));
    assert!(!state.prepare_frame(OUTPUT, request.frame_id));
    state.queue_prepared_frame(done[0], true, 4);
    assert_eq!(state.frame_submitted(OUTPUT, Retired::Frame(99), 5), None);
    let shown = state.frame_submitted(OUTPUT, Retired::Frame(request.frame_id), 5).unwrap();
    assert_eq!(shown.lock_generation, Some(5));
    assert_eq!(state.scheduler.phase(OUTPUT), Some(OutputPhase::Idle));
}

#[test]
fn a_fence_that_never_comes_makes_the_frame_fail() {
    let mut state = running();
    let request = state.render_all(0)[0];
    state.render_output(request, EXPORTED, None, 0);
    assert_eq!(state.next_fence_check(), Some(FENCE_TIMEOUT));
    assert!(state.poll_non_exportable_fences(&Vec::new(), FENCE_TIMEOUT).is_empty());
    assert_eq!(state.next_fence_check(), None);
    assert_eq!(state.scheduler.earliest_deadline(), Some(FENCE_TIMEOUT + RETRACE));
}

#[test]
fn a_frame_without_changes_counts_as_shown_in_time() {
    let mut state = running();
    let request = state.render_all(0)[0];
    state.render_output(request, Rendered::Empty, None, 100);
    assert_eq!(state.next_software_presentation(), Some(100 + RETRACE));
    assert!(state.retire_software_presentations(100).is_empty());
    assert_eq!(state.retire_software_presentations(100 + RETRACE).len(), 1);
    assert_eq!(state.next_software_presentation(), None);
}

#[test]
fn power_changes_while_nothing_is_under_way() {
    let mut state = running();
    let request = state.render_all(0)[0];
    assert_eq!(
        state.want_power(&vec![(OUTPUT, false), (OutputId(9), true)]),
        vec![OutputId(9)]
    );
    state.render_output(request, Rendered::Empty, None, 0);
    assert!(state.apply_output_power_requests().is_empty());
    assert_eq!(state.retire_software_presentations(RETRACE).len(), 1);
    assert_eq!(state.apply_output_power_requests(), vec![OUTPUT]);
    state.switched_off(OUTPUT);
    assert_eq!(state.scheduler.phase(OUTPUT), None);

    assert!(state.want_power(&vec![(OUTPUT, true)]).is_empty());
    assert!(state.apply_output_power_requests().is_empty());
    let request = state.render_all(1)[0];
    state.render_output(request, Rendered::Empty, None, 1);
    let shown = state.retire_software_presentations(1 + RETRACE);
    assert_eq!(shown[0].power_mode, Some(true));
}

#[test]
fn sessions_are_paused_and_resumed() {
    let mut state = running();
    let request = state.render_all(0)[0];
    state.render_output(request, EXPORTED, None, 0);
    state.pause_session();
    assert!(!state.session_active);
    assert_eq!(state.next_fence_check(), None);
    assert!(state.render_all(1).is_empty());
    state.activate_session();
    state.activate_device(1, true, &vec![OUTPUT]);
    assert_eq!(state.render_all(2).len(), 1);
    state.activate_device(1, false, &vec![OUTPUT]);
    assert_eq!(state.scheduler.phase(OUTPUT), None);
}

#[test]
fn devices_come_and_go() {
    let mut state = running();
    state.add_output(OutputId(4), 2, 41, DEFAULT_RETRACE);
    assert_eq!(state.find_connector(1, 40), Some(OUTPUT));
    assert_eq!(state.find_connector(1, 41), None);
    let request = state.render_all(0)[0];
    state.render_output(request, WAITING, None, 0);
    state.fail_device_frames(1, 50);
    assert_eq!(state.next_fence_check(), None);
    assert_eq!(state.scheduler.earliest_deadline(), Some(50 + RETRACE));
    assert_eq!(state.remove_device(1), vec![OUTPUT]);
    assert_eq!(state.find_connector(1, 40), None);
    assert_eq!(state.find_connector(2, 41), Some(OutputId(4)));
    state.request_all(RepaintReasons::damage());
    state.begin_shutdown(7);
    assert!(state.render_all(8).is_empty());
    assert!(state.shutdown_complete(false, 8));
}

#[test]
fn devices_that_come_to_a_paused_session_wait() {
    let mut state = running();
    assert!(state.device_appeared(2));
    assert!(!state.device_appeared(1));
    state.pause_session();
    assert!(!state.device_appeared(9));
    assert!(!state.device_appeared(4));
    assert!(!state.device_appeared(9));
    state.activate_session();
    assert_eq!(state.take_deferred(), vec![4, 9]);
    assert!(state.take_deferred().is_empty());
}

#[test]
fn a_frame_that_is_done_at_once_is_handed_over() {
    for fence in [
        Fence { needed: false, composed: true, exported: Some(true), reached: false },
        Fence { needed: true, composed: false, exported: None, reached: false },
        Fence { needed: true, composed: true, exported: None, reached: true },
    ] {
        let mut state = running();
        let request = state.render_all(0)[0];
        let frame = state.render_output(request, Rendered::Drawn(fence), Some(2), 0).unwrap();
        assert_eq!(frame.frame_id, request.frame_id);
        assert_eq!(frame.lock_generation, Some(2));
        assert_eq!(state.render_output(request, Rendered::Drawn(fence), Some(2), 0), None);
        state.queue_prepared_frame(frame, false, 7);
        assert_eq!(state.scheduler.earliest_deadline(), Some(7 + RETRACE));
    }
}

#[test]
fn frames_that_fail_are_drawn_again() {
    let unregistered =
        Fence { needed: true, composed: true, exported: Some(false), reached: true };
    for (rendered, delay) in [
        (Rendered::NoRenderer, DEFAULT_RETRACE),
        (Rendered::Failed, 5),
        (Rendered::Drawn(unregistered), 5),
    ] {
        let mut state = NativeLoop::new();
        state.add_device(1);
        state.add_output(OUTPUT, 1, 40, 5);
        let request = state.render_all(0)[0];
        assert_eq!(state.render_output(request, rendered, None, 100), None);
        assert_eq!(state.scheduler.earliest_deadline(), Some(100 + delay));
    }
}
