use astera::model::OutputId;
use astera::runtime::{OutputPhase, RepaintReasons, RepaintScheduler};

const FIRST: OutputId = OutputId(1);
const SECOND: OutputId = OutputId(2);

/// Times are counted in nanoseconds.
const MILLISECOND: u64 = 1_000_000;
const NOW: u64 = 1_000_000 * MILLISECOND;

#[test]
fn requests_coalesce_and_keep_all_reasons() {
    let now = NOW;
    let mut scheduler = RepaintScheduler::default();
    scheduler.add_output(FIRST);
    scheduler.request(FIRST, RepaintReasons::damage());
    scheduler.request(FIRST, RepaintReasons::frame_callback());

    let requests = scheduler.begin_ready(now, 4);
    assert_eq!(requests.len(), 1);
    assert!(requests[0].reasons.contains(RepaintReasons::damage()));
    assert!(requests[0].reasons.contains(RepaintReasons::frame_callback()));
}

#[test]
fn dirty_while_pending_schedules_exactly_one_follow_up() {
    let now = NOW;
    let mut scheduler = RepaintScheduler::default();
    scheduler.add_output(FIRST);
    scheduler.request(FIRST, RepaintReasons::damage());
    let frame = scheduler.begin_ready(now, 1)[0];
    assert!(scheduler.submitted(FIRST, frame.frame_id));

    scheduler.request(FIRST, RepaintReasons::cursor());
    scheduler.request(FIRST, RepaintReasons::damage());
    assert!(scheduler.presented(FIRST, frame.frame_id));

    let follow_up = scheduler.begin_ready(now, 4);
    assert_eq!(follow_up.len(), 1);
    assert!(follow_up[0].reasons.contains(RepaintReasons::cursor()));
    assert!(follow_up[0].reasons.contains(RepaintReasons::damage()));
}

#[test]
fn dirty_while_rendering_is_not_lost() {
    let now = NOW;
    let mut scheduler = RepaintScheduler::default();
    scheduler.add_output(FIRST);
    scheduler.request(FIRST, RepaintReasons::damage());
    let frame = scheduler.begin_ready(now, 1)[0];

    scheduler.request(FIRST, RepaintReasons::cursor());
    assert!(scheduler.submitted(FIRST, frame.frame_id));
    assert!(scheduler.presented(FIRST, frame.frame_id));

    let follow_up = scheduler.begin_ready(now, 1);
    assert_eq!(follow_up.len(), 1);
    assert!(follow_up[0].reasons.contains(RepaintReasons::cursor()));
}

#[test]
fn budget_rotates_ready_outputs_without_dropping_work() {
    let now = NOW;
    let mut scheduler = RepaintScheduler::default();
    scheduler.add_output(FIRST);
    scheduler.add_output(SECOND);
    scheduler.request(FIRST, RepaintReasons::damage());
    scheduler.request(SECOND, RepaintReasons::damage());

    let first_batch = scheduler.begin_ready(now, 1);
    assert_eq!(first_batch[0].output, FIRST);
    assert!(scheduler.has_ready_at(now));
    let second_batch = scheduler.begin_ready(now, 1);
    assert_eq!(second_batch[0].output, SECOND);
}

#[test]
fn deadline_uses_earliest_request_and_does_not_render_early() {
    let now = NOW;
    let later = now + 20 * MILLISECOND;
    let earlier = now + 10 * MILLISECOND;
    let mut scheduler = RepaintScheduler::default();
    scheduler.add_output(FIRST);
    scheduler.request_at(FIRST, RepaintReasons::animation(), later);
    scheduler.request_at(FIRST, RepaintReasons::frame_callback(), earlier);

    assert_eq!(scheduler.earliest_deadline(), Some(earlier));
    assert!(scheduler.begin_ready(now, 1).is_empty());
    assert_eq!(scheduler.begin_ready(earlier, 1).len(), 1);
}

#[test]
fn immediate_work_cancels_an_animation_deadline() {
    let now = NOW;
    let mut scheduler = RepaintScheduler::default();
    scheduler.add_output(FIRST);
    scheduler.request_at(
        FIRST,
        RepaintReasons::animation(),
        now + 1_000 * MILLISECOND,
    );
    scheduler.request(FIRST, RepaintReasons::damage());

    let request = scheduler.begin_ready(now, 1)[0];
    assert!(request.reasons.contains(RepaintReasons::animation()));
    assert!(request.reasons.contains(RepaintReasons::damage()));
}

#[test]
fn later_timed_request_does_not_delay_immediate_work() {
    let now = NOW;
    let mut scheduler = RepaintScheduler::default();
    scheduler.add_output(FIRST);
    scheduler.request(FIRST, RepaintReasons::damage());
    scheduler.request_at(
        FIRST,
        RepaintReasons::animation(),
        now + 1_000 * MILLISECOND,
    );

    let request = scheduler.begin_ready(now, 1)[0];
    assert!(request.reasons.contains(RepaintReasons::damage()));
    assert!(request.reasons.contains(RepaintReasons::animation()));
}

#[test]
fn missed_deadline_precedes_round_robin_ready_work() {
    let now = NOW;
    let mut scheduler = RepaintScheduler::default();
    scheduler.add_output(FIRST);
    scheduler.add_output(SECOND);
    scheduler.request(FIRST, RepaintReasons::damage());
    scheduler.request_at(
        SECOND,
        RepaintReasons::animation(),
        now - 10 * MILLISECOND,
    );

    assert_eq!(scheduler.begin_ready(now, 1)[0].output, SECOND);
    assert_eq!(scheduler.begin_ready(now, 1)[0].output, FIRST);
}

#[test]
fn repeated_missed_deadlines_cannot_starve_immediate_work() {
    let now = NOW;
    let mut scheduler = RepaintScheduler::default();
    scheduler.add_output(FIRST);
    scheduler.add_output(SECOND);
    scheduler.request_at(
        FIRST,
        RepaintReasons::animation(),
        now - 10 * MILLISECOND,
    );
    scheduler.request(SECOND, RepaintReasons::damage());

    let deadline_frame = scheduler.begin_ready(now, 1)[0];
    assert_eq!(deadline_frame.output, FIRST);
    assert!(scheduler.failed(FIRST, deadline_frame.frame_id));
    scheduler.request_at(
        FIRST,
        RepaintReasons::animation(),
        now - 10 * MILLISECOND,
    );

    assert_eq!(scheduler.begin_ready(now, 1)[0].output, SECOND);
}

#[test]
fn future_deadline_does_not_request_an_immediate_continuation() {
    let now = NOW;
    let mut scheduler = RepaintScheduler::default();
    scheduler.add_output(FIRST);
    scheduler.request_at(
        FIRST,
        RepaintReasons::animation(),
        now + 1_000 * MILLISECOND,
    );

    assert!(!scheduler.has_ready_at(now));
    assert!(scheduler.has_ready_at(now + 1_000 * MILLISECOND));
}

#[test]
fn pause_coalesces_work_and_resume_forces_full_repaint() {
    let now = NOW;
    let mut scheduler = RepaintScheduler::default();
    scheduler.add_output(FIRST);
    scheduler.request(FIRST, RepaintReasons::damage());
    scheduler.pause();
    scheduler.request(FIRST, RepaintReasons::cursor());

    assert!(scheduler.begin_ready(now, 1).is_empty());
    scheduler.resume();
    let request = scheduler.begin_ready(now, 1)[0];
    assert!(request.reasons.contains(RepaintReasons::damage()));
    assert!(request.reasons.contains(RepaintReasons::cursor()));
    assert!(request.reasons.contains(RepaintReasons::full_repaint()));
}

#[test]
fn pause_clears_deadlines_and_hotplugged_output_repaints_on_resume() {
    let now = NOW;
    let future = now + 60_000 * MILLISECOND;
    let mut scheduler = RepaintScheduler::default();
    scheduler.add_output(FIRST);
    scheduler.request_at(FIRST, RepaintReasons::animation(), future);
    scheduler.pause();
    scheduler.add_output(SECOND);

    assert_eq!(scheduler.earliest_deadline(), None);
    assert_eq!(scheduler.phase(SECOND), Some(OutputPhase::Paused));
    scheduler.resume();
    let requests = scheduler.begin_ready(now, 2);
    assert_eq!(requests.len(), 2);
    assert!(
        requests
            .iter()
            .all(|request| request.reasons.contains(RepaintReasons::full_repaint()))
    );
}

#[test]
fn failed_frame_retries_as_full_repaint() {
    let now = NOW;
    let mut scheduler = RepaintScheduler::default();
    scheduler.add_output(FIRST);
    scheduler.request(FIRST, RepaintReasons::damage());
    let frame = scheduler.begin_ready(now, 1)[0];

    assert!(scheduler.failed(FIRST, frame.frame_id));
    let retry = scheduler.begin_ready(now, 1)[0];
    assert!(retry.reasons.contains(RepaintReasons::full_repaint()));
}

#[test]
fn backend_can_defer_a_failed_frame_without_busy_retrying() {
    let now = NOW;
    let retry = now + 16 * MILLISECOND;
    let mut scheduler = RepaintScheduler::default();
    scheduler.add_output(FIRST);
    scheduler.request(FIRST, RepaintReasons::frame_callback());
    let frame = scheduler.begin_ready(now, 1)[0];

    assert!(scheduler.retry_at(FIRST, frame.frame_id, retry));
    assert!(!scheduler.has_ready_at(now));
    assert_eq!(scheduler.earliest_deadline(), Some(retry));
    let request = scheduler.begin_ready(retry, 1)[0];
    assert!(request.reasons.contains(RepaintReasons::full_repaint()));
}

#[test]
fn failed_frame_retry_is_not_delayed_by_pending_animation() {
    let now = NOW;
    let mut scheduler = RepaintScheduler::default();
    scheduler.add_output(FIRST);
    scheduler.request(FIRST, RepaintReasons::damage());
    let frame = scheduler.begin_ready(now, 1)[0];
    scheduler.request_at(
        FIRST,
        RepaintReasons::animation(),
        now + 1_000 * MILLISECOND,
    );

    assert!(scheduler.failed(FIRST, frame.frame_id));
    assert_eq!(scheduler.begin_ready(now, 1).len(), 1);
}

#[test]
fn stale_completion_cannot_finish_a_new_frame() {
    let now = NOW;
    let mut scheduler = RepaintScheduler::default();
    scheduler.add_output(FIRST);
    scheduler.request(FIRST, RepaintReasons::damage());
    let first = scheduler.begin_ready(now, 1)[0];
    assert!(scheduler.failed(FIRST, first.frame_id));
    let second = scheduler.begin_ready(now, 1)[0];

    assert!(!scheduler.submitted(FIRST, first.frame_id));
    assert!(scheduler.submitted(FIRST, second.frame_id));
    assert!(!scheduler.presented(FIRST, first.frame_id));
    assert!(scheduler.presented(FIRST, second.frame_id));
}

#[test]
fn maximum_frame_id_can_complete_before_wrapping() {
    let now = NOW;
    let mut scheduler = RepaintScheduler::default();
    scheduler.add_output(FIRST);
    scheduler.outputs.get_mut(FIRST.0 as u64).unwrap().next_frame_id = u64::MAX;
    scheduler.request(FIRST, RepaintReasons::damage());

    let frame = scheduler.begin_ready(now, 1)[0];
    assert_eq!(frame.frame_id, u64::MAX);
    assert!(scheduler.submitted(FIRST, frame.frame_id));
    assert!(scheduler.presented(FIRST, frame.frame_id));
}
