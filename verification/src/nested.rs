//! When the nested backend draws: in a window of another compositor, which decides when a frame
//! may be shown. Times are counted in nanoseconds.

use vstd::prelude::*;

verus! {

pub const SHUTDOWN_GRACE: u64 = 2_000_000_000;

pub const FRAME_RETRY_INITIAL: u64 = 16_000_000;

pub const FRAME_RETRY_MAX: u64 = 1_000_000_000;

/// A time some while after another, as far as time reaches.
pub open spec fn later(now: u64, delay: u64) -> u64 {
    if now + delay > u64::MAX {
        u64::MAX
    } else {
        (now + delay) as u64
    }
}

/// Whether a time has come.
pub open spec fn come(deadline: Option<u64>, now: u64) -> bool {
    deadline matches Some(at) && at <= now
}

pub(crate) fn has_come(deadline: Option<u64>, now: u64) -> (r: bool)
    ensures
        r == come(deadline, now),
{
    match deadline {
        Some(at) => at <= now,
        None => false,
    }
}

/// The earliest of some times.
pub open spec fn soonest(times: Seq<Option<u64>>) -> Option<u64>
    decreases times.len(),
{
    if times.len() == 0 {
        None
    } else {
        match (soonest(times.drop_last()), times.last()) {
            (Some(a), Some(b)) => Some(
                if a <= b {
                    a
                } else {
                    b
                },
            ),
            (Some(a), None) => Some(a),
            (None, b) => b,
        }
    }
}

/// The earliest of some times.
pub fn earliest(times: &[Option<u64>]) -> (r: Option<u64>)
    ensures
        r == soonest(times@),
{
    let mut best: Option<u64> = None;
    let mut i: usize = 0;
    assert(times@.take(0) =~= Seq::empty());
    while i < times.len()
        invariant
            i <= times@.len(),
            best == soonest(times@.take(i as int)),
        decreases times@.len() - i,
    {
        proof {
            assert(times@.take(i + 1).drop_last() =~= times@.take(i as int));
            assert(times@.take(i + 1).last() == times@[i as int]);
        }
        best = match (best, times[i]) {
            (Some(a), Some(b)) => Some(if a <= b { a } else { b }),
            (Some(a), None) => Some(a),
            (None, b) => b,
        };
        i = i + 1;
    }
    assert(times@.take(i as int) =~= times@);
    best
}

/// How long to wait for events: not at all while some wait, until the earliest time otherwise,
/// and without end where there is none.
pub open spec fn patience(busy: bool, deadline: Option<u64>, now: u64) -> Option<u64> {
    if busy {
        Some(0)
    } else {
        match deadline {
            Some(at) => Some(
                if at <= now {
                    0
                } else {
                    (at - now) as u64
                },
            ),
            None => None,
        }
    }
}

/// How long to wait for events.
pub fn wait_for(busy: bool, deadline: Option<u64>, now: u64) -> (r: Option<u64>)
    ensures
        r == patience(busy, deadline, now),
{
    if busy {
        return Some(0);
    }
    match deadline {
        Some(at) => Some(at.saturating_sub(now)),
        None => None,
    }
}

/// Whether a shutdown is over: nothing is left to be told to anyone, or the time for it is up.
pub open spec fn drained(deadline: Option<u64>, pending: bool, now: u64) -> bool {
    deadline matches Some(at) && (!pending || at <= now)
}

#[derive(Clone, Copy, Debug, Eq, PartialEq, Structural)]
pub struct NestedLoop {
    pub tracked_width: i32,
    pub tracked_height: i32,
    /// The host lets a frame be shown.
    pub present_ready: bool,
    pub exiting: bool,
    pub shutdown_deadline: Option<u64>,
    pub frame_retry_deadline: Option<u64>,
    pub frame_retry_delay: u64,
    /// The host has given the window a size.
    pub host_configured: bool,
    /// A frame has been shown since the size last changed, so that the age of a buffer is known.
    pub has_presented: bool,
    pub scene_dirty: bool,
}

/// What the end of a round calls for.
#[derive(Clone, Copy, Debug, Eq, PartialEq, Structural)]
pub struct Round {
    pub request_redraw: bool,
    pub render: bool,
}

impl NestedLoop {
    pub open spec fn started(width: i32, height: i32) -> Self {
        NestedLoop {
            tracked_width: width,
            tracked_height: height,
            present_ready: false,
            exiting: false,
            shutdown_deadline: None,
            frame_retry_deadline: None,
            frame_retry_delay: FRAME_RETRY_INITIAL,
            host_configured: false,
            has_presented: false,
            scene_dirty: false,
        }
    }

    /// The loop when the host has resized the window, and whether the scene has changed by that.
    pub open spec fn after_resize(self, width: i32, height: i32) -> (Self, bool) {
        let configured = width > 0 && height > 0;
        if (width, height) != (self.tracked_width, self.tracked_height) || configured
            != self.host_configured {
            (
                NestedLoop {
                    host_configured: configured,
                    has_presented: false,
                    present_ready: false,
                    ..self
                },
                configured,
            )
        } else {
            (self, false)
        }
    }

    /// The loop at the start of a round, and whether the scene has changed by then.
    pub open spec fn at_start(self, visual_timer: Option<u64>, now: u64) -> (Self, bool) {
        if come(self.frame_retry_deadline, now) {
            (NestedLoop { frame_retry_deadline: None, ..self }, true)
        } else {
            (self, come(visual_timer, now))
        }
    }

    /// The loop when the size of the window has been looked at, and whether it is another.
    pub open spec fn with_size(self, width: i32, height: i32) -> (Self, bool) {
        (
            NestedLoop { tracked_width: width, tracked_height: height, ..self },
            (width, height) != (self.tracked_width, self.tracked_height),
        )
    }

    /// The loop at the end of a round, and what it calls for. A frame is asked for while the
    /// scene is not the one that is shown; it is drawn when the host lets it be.
    pub open spec fn at_end(self, scene_changed: bool) -> (Self, Round) {
        let dirty = self.scene_dirty || scene_changed;
        (
            NestedLoop { scene_dirty: dirty, present_ready: false, ..self },
            Round {
                request_redraw: self.host_configured && dirty && !self.present_ready
                    && self.shutdown_deadline is None,
                render: self.present_ready,
            },
        )
    }

    /// The loop when a frame could not be shown: it is tried again later, each time later than
    /// before.
    pub open spec fn after_failure(self, now: u64) -> Self {
        NestedLoop {
            has_presented: false,
            frame_retry_deadline: Some(later(now, self.frame_retry_delay)),
            frame_retry_delay: if 2 * self.frame_retry_delay < FRAME_RETRY_MAX {
                (2 * self.frame_retry_delay) as u64
            } else {
                FRAME_RETRY_MAX
            },
            ..self
        }
    }

    /// The loop when a frame has been shown.
    pub open spec fn after_frame(self) -> Self {
        NestedLoop {
            has_presented: true,
            scene_dirty: false,
            frame_retry_deadline: None,
            frame_retry_delay: FRAME_RETRY_INITIAL,
            ..self
        }
    }

    pub fn new(width: i32, height: i32) -> (r: Self)
        ensures
            r == Self::started(width, height),
    {
        NestedLoop {
            tracked_width: width,
            tracked_height: height,
            present_ready: false,
            exiting: false,
            shutdown_deadline: None,
            frame_retry_deadline: None,
            frame_retry_delay: FRAME_RETRY_INITIAL,
            host_configured: false,
            has_presented: false,
            scene_dirty: false,
        }
    }

    /// Takes note of the size that the host gave the window. Says whether the scene has changed.
    pub fn resized(&mut self, width: i32, height: i32) -> (r: bool)
        ensures
            (*final(self), r) == old(self).after_resize(width, height),
    {
        let was_configured: bool = self.host_configured;
        let size_changed: bool = width != self.tracked_width || height != self.tracked_height;
        self.host_configured = width > 0 && height > 0;
        if size_changed || self.host_configured != was_configured {
            self.has_presented = false;
            self.present_ready = false;
            return self.host_configured;
        }
        false
    }

    /// Takes note that the host lets a frame be shown; there must be something to show.
    pub fn redraw(&mut self)
        ensures
            *final(self) == (NestedLoop {
                present_ready: old(self).present_ready || (old(self).host_configured && old(
                    self,
                ).scene_dirty),
                ..*old(self)
            }),
    {
        if self.host_configured && self.scene_dirty {
            self.present_ready = true;
        }
    }

    /// Takes note that the window was closed.
    pub fn close(&mut self)
        ensures
            *final(self) == (NestedLoop { exiting: true, ..*old(self) }),
    {
        self.exiting = true;
    }

    /// Starts a round. Says whether the scene has changed by then.
    pub fn begin_round(&mut self, visual_timer: Option<u64>, now: u64) -> (r: bool)
        ensures
            (*final(self), r) == old(self).at_start(visual_timer, now),
    {
        if has_come(self.frame_retry_deadline, now) {
            self.frame_retry_deadline = None;
            return true;
        }
        has_come(visual_timer, now)
    }

    /// Looks at the size of the window. Says whether it is another, so that nothing of what was
    /// drawn before can be used again.
    pub fn observe_size(&mut self, width: i32, height: i32) -> (r: bool)
        ensures
            (*final(self), r) == old(self).with_size(width, height),
    {
        let changed: bool = width != self.tracked_width || height != self.tracked_height;
        self.tracked_width = width;
        self.tracked_height = height;
        changed
    }

    /// Ends a round.
    pub fn end_round(&mut self, scene_changed: bool) -> (r: Round)
        ensures
            (*final(self), r) == old(self).at_end(scene_changed),
    {
        self.scene_dirty = self.scene_dirty || scene_changed;
        let request_redraw: bool = self.host_configured && self.scene_dirty && !self.present_ready
            && self.shutdown_deadline.is_none();
        let render: bool = self.present_ready;
        self.present_ready = false;
        Round { request_redraw, render }
    }

    pub fn frame_failed(&mut self, now: u64)
        ensures
            *final(self) == old(self).after_failure(now),
    {
        self.has_presented = false;
        self.frame_retry_deadline = Some(now.saturating_add(self.frame_retry_delay));
        self.frame_retry_delay = if self.frame_retry_delay < FRAME_RETRY_MAX / 2 {
            2 * self.frame_retry_delay
        } else {
            FRAME_RETRY_MAX
        };
    }

    pub fn frame_completed(&mut self)
        ensures
            *final(self) == old(self).after_frame(),
    {
        self.has_presented = true;
        self.scene_dirty = false;
        self.frame_retry_deadline = None;
        self.frame_retry_delay = FRAME_RETRY_INITIAL;
    }

    /// How many frames old the buffer is that the next frame is drawn to; zero where that is not
    /// known, and all must be drawn.
    pub fn buffer_age(&self, known: Option<usize>) -> (r: usize)
        ensures
            r == if self.has_presented {
                known.unwrap_or(0)
            } else {
                0
            },
    {
        if self.has_presented {
            known.unwrap_or(0)
        } else {
            0
        }
    }

    /// When something must be done next.
    pub fn next_deadline(&self, others: &[Option<u64>; 3]) -> (r: Option<u64>)
        ensures
            r == soonest(
                seq![
                    others[0],
                    others[1],
                    self.shutdown_deadline,
                    self.frame_retry_deadline,
                    others[2],
                ],
            ),
    {
        let all: [Option<u64>; 5] = [
            others[0],
            others[1],
            self.shutdown_deadline,
            self.frame_retry_deadline,
            others[2],
        ];
        assert(all@ =~= seq![
            others[0],
            others[1],
            self.shutdown_deadline,
            self.frame_retry_deadline,
            others[2],
        ]);
        earliest(&all)
    }

    /// Begins to shut down: what waits for clients has some time to reach them.
    pub fn begin_shutdown(&mut self, now: u64)
        ensures
            *final(self) == (NestedLoop {
                shutdown_deadline: match old(self).shutdown_deadline {
                    Some(at) => Some(at),
                    None => Some(later(now, SHUTDOWN_GRACE)),
                },
                ..*old(self)
            }),
    {
        if self.shutdown_deadline.is_none() {
            self.shutdown_deadline = Some(now.saturating_add(SHUTDOWN_GRACE));
        }
    }

    pub fn shutdown_complete(&self, pending: bool, now: u64) -> (r: bool)
        ensures
            r == drained(self.shutdown_deadline, pending, now),
    {
        match self.shutdown_deadline {
            Some(at) => !pending || at <= now,
            None => false,
        }
    }
}

/// The earliest of some times is one of them, and none comes before it.
pub proof fn soonest_is_first(times: Seq<Option<u64>>, i: int)
    requires
        0 <= i < times.len(),
        times[i] is Some,
    ensures
        soonest(times) is Some,
        soonest(times)->0 <= times[i]->0,
        times.contains(soonest(times)),
    decreases times.len(),
{
    if i < times.len() - 1 {
        soonest_is_first(times.drop_last(), i);
        let best = soonest(times.drop_last());
        let j = times.drop_last().index_of(best);
        assert(times[j] == best);
    } else {
        soonest_is_listed(times.drop_last());
        if let Some(a) = soonest(times.drop_last()) {
            let j = times.drop_last().index_of(Some(a));
            assert(times[j] == Some(a));
        }
    }
    assert(times[times.len() - 1] == times.last());
}

proof fn soonest_is_listed(times: Seq<Option<u64>>)
    ensures
        soonest(times) is Some ==> times.contains(soonest(times)),
    decreases times.len(),
{
    if times.len() > 0 {
        soonest_is_listed(times.drop_last());
        if let Some(a) = soonest(times.drop_last()) {
            let j = times.drop_last().index_of(Some(a));
            assert(times[j] == Some(a));
        }
        assert(times[times.len() - 1] == times.last());
    }
}

/// A scene that has changed is not forgotten: until a frame has been shown, every round asks for
/// a redraw or draws, as long as the host has given the window a size and nothing is shut down.
pub proof fn dirty_scenes_are_drawn(state: NestedLoop, scene_changed: bool)
    requires
        state.host_configured,
        state.shutdown_deadline is None,
        state.scene_dirty || scene_changed,
    ensures
        state.at_end(scene_changed).1.request_redraw || state.at_end(scene_changed).1.render,
        state.at_end(scene_changed).0.scene_dirty,
{
}

/// The wait between attempts grows, and never beyond its bound.
pub proof fn retries_back_off(state: NestedLoop, now: u64)
    requires
        state.frame_retry_delay <= FRAME_RETRY_MAX,
    ensures
        state.frame_retry_delay <= state.after_failure(now).frame_retry_delay <= FRAME_RETRY_MAX,
        state.after_frame().frame_retry_delay == FRAME_RETRY_INITIAL,
{
}

} // verus!
