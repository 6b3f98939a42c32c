//! Repaint scheduling, independent of any backend.
//!
//! Event sources request work here and never render themselves. Points in time are readings of
//! a monotonic clock in one unit of the caller's choice.

use crate::id_map;
use crate::id_map::IdMap;
use crate::model::OutputId;
use crate::ranking;
use crate::ranking::RankedIds;
use vstd::prelude::*;

verus! {

/// Why an output needs another presentation opportunity: a set of reasons, one bit each.
#[derive(Clone, Copy, Debug, Eq, PartialEq, Structural)]
pub struct RepaintReasons(pub u8);

impl Default for RepaintReasons {
    fn default() -> (r: Self)
        ensures
            r == RepaintReasons(0),
    {
        RepaintReasons(0)
    }
}

impl RepaintReasons {
    pub fn damage() -> (r: Self)
        ensures
            r == RepaintReasons(1),
    {
        RepaintReasons(1)
    }

    pub fn frame_callback() -> (r: Self)
        ensures
            r == RepaintReasons(2),
    {
        RepaintReasons(2)
    }

    pub fn animation() -> (r: Self)
        ensures
            r == RepaintReasons(4),
    {
        RepaintReasons(4)
    }

    pub fn cursor() -> (r: Self)
        ensures
            r == RepaintReasons(8),
    {
        RepaintReasons(8)
    }

    pub fn output_change() -> (r: Self)
        ensures
            r == RepaintReasons(16),
    {
        RepaintReasons(16)
    }

    pub fn full_repaint() -> (r: Self)
        ensures
            r == RepaintReasons(32),
    {
        RepaintReasons(32)
    }

    pub open spec fn has(self, reason: Self) -> bool {
        self.0 & reason.0 == reason.0
    }

    pub open spec fn with(self, reason: Self) -> Self {
        RepaintReasons(self.0 | reason.0)
    }

    /// Whether all the given reasons are among these.
    pub fn contains(self, reason: Self) -> (r: bool)
        ensures
            r == self.has(reason),
    {
        self.0 & reason.0 == reason.0
    }

    pub fn is_empty(self) -> (r: bool)
        ensures
            r == (self.0 == 0),
    {
        self.0 == 0
    }

    fn insert(&mut self, reason: Self)
        ensures
            *final(self) == old(self).with(reason),
    {
        self.0 = self.0 | reason.0;
    }

    /// Reasons that are joined are all among the whole, and so is what was among one of them.
    pub proof fn joining_keeps(self, more: Self, reason: Self)
        ensures
            self.with(more).has(self),
            self.with(more).has(more),
            self.has(reason) ==> self.with(more).has(reason),
            more.has(reason) ==> self.with(more).has(reason),
    {
        let a = self.0;
        let b = more.0;
        let c = reason.0;
        assert((a | b) & a == a) by (bit_vector);
        assert((a | b) & b == b) by (bit_vector);
        assert(a & c == c ==> (a | b) & c == c) by (bit_vector);
        assert(b & c == c ==> (a | b) & c == c) by (bit_vector);
    }
}

/// An item delivered by an event source.
#[derive(Debug)]
pub enum RuntimeEvent<Input, Command, BackendEvent> {
    Input(Input),
    IpcCommand(Command),
    SurfaceCommitted(OutputId),
    TimerFired(TimerKind),
    Backend(BackendEvent),
    Continue,
    Shutdown,
}

#[derive(Clone, Copy, Debug, Eq, PartialEq, Structural)]
pub enum TimerKind {
    Animation(OutputId),
    KeyRepeat,
    ConfigDebounce,
    IoTimeout(u64),
}

#[derive(Clone, Copy, Debug, Eq, PartialEq, Structural)]
pub enum OutputPhase {
    Idle,
    Scheduled,
    Rendering,
    AwaitingPresentation,
    Paused,
}

#[derive(Clone, Copy, Debug, Eq, PartialEq, Structural)]
pub struct RenderRequest {
    pub output: OutputId,
    pub frame_id: u64,
    pub reasons: RepaintReasons,
}

/// The schedule of one output.
#[derive(Clone, Copy, Debug, Eq, PartialEq, Structural)]
pub struct OutputSchedule {
    pub phase: OutputPhase,
    /// Why the scheduled frame is to be painted.
    pub reasons: RepaintReasons,
    /// Why another frame will be needed after the present one.
    pub dirty_after_present: RepaintReasons,
    pub deadline: Option<u64>,
    pub immediate_pending: bool,
    pub dirty_immediate: bool,
    pub next_frame_id: u64,
    pub active_frame_id: Option<u64>,
}

impl View for OutputSchedule {
    type V = OutputSchedule;

    open spec fn view(&self) -> OutputSchedule {
        *self
    }
}

impl Default for OutputSchedule {
    fn default() -> (r: Self)
        ensures
            r == OutputSchedule::initial(),
    {
        OutputSchedule {
            phase: OutputPhase::Idle,
            reasons: RepaintReasons(0),
            dirty_after_present: RepaintReasons(0),
            deadline: None,
            immediate_pending: false,
            dirty_immediate: false,
            next_frame_id: 1,
            active_frame_id: None,
        }
    }
}

impl OutputSchedule {
    pub open spec fn initial() -> Self {
        OutputSchedule {
            phase: OutputPhase::Idle,
            reasons: RepaintReasons(0),
            dirty_after_present: RepaintReasons(0),
            deadline: None,
            immediate_pending: false,
            dirty_immediate: false,
            next_frame_id: 1,
            active_frame_id: None,
        }
    }

    /// The schedule with a deadline added, or with none where the work is immediate. Immediate
    /// work is not put off by a later deadline, and of two deadlines the earlier counts.
    pub open spec fn timed(self, deadline: Option<u64>, dirty: bool) -> Self {
        let immediate = if dirty {
            self.dirty_immediate
        } else {
            self.immediate_pending
        };
        match deadline {
            None => if dirty {
                OutputSchedule { dirty_immediate: true, deadline: None, ..self }
            } else {
                OutputSchedule { immediate_pending: true, deadline: None, ..self }
            },
            Some(at) => if immediate {
                self
            } else {
                OutputSchedule {
                    deadline: match self.deadline {
                        Some(current) => if current < at {
                            Some(current)
                        } else {
                            Some(at)
                        },
                        None => Some(at),
                    },
                    ..self
                }
            },
        }
    }

    /// The schedule after a request.
    pub open spec fn requested(self, reason: RepaintReasons, deadline: Option<u64>) -> Self {
        match self.phase {
            OutputPhase::Idle => OutputSchedule {
                phase: OutputPhase::Scheduled,
                ..(OutputSchedule { reasons: self.reasons.with(reason), ..self }).timed(
                    deadline,
                    false,
                )
            },
            OutputPhase::Scheduled => (OutputSchedule {
                reasons: self.reasons.with(reason),
                ..self
            }).timed(deadline, false),
            _ => (OutputSchedule {
                dirty_after_present: self.dirty_after_present.with(reason),
                ..self
            }).timed(deadline, true),
        }
    }

    /// The schedule once its frame is being rendered.
    pub open spec fn begun(self) -> Self {
        OutputSchedule {
            phase: OutputPhase::Rendering,
            reasons: RepaintReasons(0),
            deadline: None,
            immediate_pending: false,
            next_frame_id: if self.next_frame_id == u64::MAX {
                1
            } else {
                (self.next_frame_id + 1) as u64
            },
            active_frame_id: Some(self.next_frame_id),
            ..self
        }
    }

    /// The schedule once its frame is done: what came up meanwhile is scheduled.
    pub open spec fn followed_up(self) -> Self {
        OutputSchedule {
            phase: if self.dirty_after_present.0 == 0 {
                OutputPhase::Idle
            } else {
                OutputPhase::Scheduled
            },
            reasons: self.dirty_after_present,
            dirty_after_present: RepaintReasons(0),
            immediate_pending: self.dirty_immediate,
            dirty_immediate: false,
            active_frame_id: None,
            ..self
        }
    }

    /// Whether a frame is on its way.
    pub open spec fn in_flight(self, frame_id: u64) -> bool {
        (self.phase == OutputPhase::Rendering || self.phase == OutputPhase::AwaitingPresentation)
            && self.active_frame_id == Some(frame_id)
    }

    /// The schedule after its frame has failed: all of it is to be painted again, at once or at
    /// a deadline.
    pub open spec fn to_retry(self, deadline: Option<u64>) -> Self {
        OutputSchedule {
            dirty_after_present: self.dirty_after_present.with(RepaintReasons(32)),
            dirty_immediate: deadline is None,
            deadline,
            ..self
        }
    }

    pub open spec fn paused(self) -> Self {
        OutputSchedule {
            dirty_after_present: if self.phase != OutputPhase::Idle {
                self.dirty_after_present.with(self.reasons)
            } else {
                self.dirty_after_present
            },
            reasons: RepaintReasons(0),
            deadline: None,
            immediate_pending: false,
            dirty_immediate: false,
            active_frame_id: None,
            phase: OutputPhase::Paused,
            ..self
        }
    }

    pub open spec fn resumed(self) -> Self {
        if self.phase != OutputPhase::Paused {
            self
        } else {
            OutputSchedule {
                reasons: self.dirty_after_present.with(RepaintReasons(32)),
                dirty_after_present: RepaintReasons(0),
                deadline: None,
                immediate_pending: true,
                dirty_immediate: false,
                phase: OutputPhase::Scheduled,
                ..self
            }
        }
    }

    /// Whether the scheduled frame may begin.
    pub open spec fn due(self, now: u64) -> bool {
        match self.deadline {
            Some(at) => at <= now,
            None => true,
        }
    }

    fn set_deadline(&mut self, deadline: Option<u64>, dirty: bool)
        ensures
            *final(self) == old(self).timed(deadline, dirty),
    {
        match deadline {
            None => {
                if dirty {
                    self.dirty_immediate = true;
                } else {
                    self.immediate_pending = true;
                }
                self.deadline = None;
            },
            Some(at) => {
                let immediate: bool = if dirty {
                    self.dirty_immediate
                } else {
                    self.immediate_pending
                };
                if !immediate {
                    self.deadline = match self.deadline {
                        Some(current) => if current < at {
                            Some(current)
                        } else {
                            Some(at)
                        },
                        None => Some(at),
                    };
                }
            },
        }
    }

    fn follow_up(&mut self)
        ensures
            *final(self) == old(self).followed_up(),
    {
        self.active_frame_id = None;
        self.reasons = self.dirty_after_present;
        self.dirty_after_present = RepaintReasons(0);
        self.immediate_pending = self.dirty_immediate;
        self.dirty_immediate = false;
        self.phase = if self.reasons.is_empty() {
            OutputPhase::Idle
        } else {
            OutputPhase::Scheduled
        };
    }

    fn is_in_flight(&self, frame_id: u64) -> (r: bool)
        ensures
            r == self.in_flight(frame_id),
    {
        let matching: bool = match self.active_frame_id {
            Some(active) => active == frame_id,
            None => false,
        };
        (self.phase == OutputPhase::Rendering || self.phase == OutputPhase::AwaitingPresentation)
            && matching
    }

    fn is_due(&self, now: u64) -> (r: bool)
        ensures
            r == self.due(now),
    {
        match self.deadline {
            Some(at) => at <= now,
            None => true,
        }
    }
}

/// Coalesces repaint requests while every output has at most one frame on its way.
#[derive(Debug)]
pub struct RepaintScheduler {
    pub outputs: IdMap<OutputSchedule>,
    /// The scheduled outputs in the order in which they were scheduled.
    pub ready: Vec<u64>,
    pub paused: bool,
    /// How many frames with a deadline have begun since the last one without.
    pub consecutive_deadline_priority: usize,
}

#[verifier::ext_equal]
pub struct SchedulerView {
    pub outputs: Map<u64, OutputSchedule>,
    pub ready: Seq<u64>,
    pub paused: bool,
    pub consecutive_deadline_priority: usize,
}

impl View for RepaintScheduler {
    type V = SchedulerView;

    open spec fn view(&self) -> SchedulerView {
        SchedulerView {
            outputs: self.outputs@,
            ready: self.ready@,
            paused: self.paused,
            consecutive_deadline_priority: self.consecutive_deadline_priority,
        }
    }
}

/// `list` without `id`.
pub open spec fn without(list: Seq<u64>, id: u64) -> Seq<u64>
    decreases list.len(),
{
    if list.len() == 0 {
        list
    } else {
        let rest = without(list.drop_last(), id);
        if list.last() == id {
            rest
        } else {
            rest.push(list.last())
        }
    }
}

/// The scheduled outputs of an ascending list of paused ones, all of which are scheduled when
/// the session resumes.
pub open spec fn paused_among(outputs: Map<u64, OutputSchedule>, keys: Seq<u64>) -> Seq<u64>
    decreases keys.len(),
{
    if keys.len() == 0 {
        keys
    } else {
        let rest = paused_among(outputs, keys.drop_last());
        if outputs[keys.last()].phase == OutputPhase::Paused {
            rest.push(keys.last())
        } else {
            rest
        }
    }
}

impl Default for RepaintScheduler {
    fn default() -> (r: Self)
        ensures
            r@ == SchedulerView::fresh(),
    {
        let ready: Vec<u64> = Vec::new();
        assert(ready@ =~= Seq::empty());
        RepaintScheduler {
            outputs: IdMap::new(),
            ready,
            paused: false,
            consecutive_deadline_priority: 0,
        }
    }
}

impl SchedulerView {
    pub open spec fn fresh() -> Self {
        SchedulerView {
            outputs: Map::empty(),
            ready: Seq::empty(),
            paused: false,
            consecutive_deadline_priority: 0,
        }
    }

    pub open spec fn added(self, output: OutputId) -> Self {
        if self.outputs.contains_key(output.0 as u64) {
            self
        } else {
            SchedulerView {
                outputs: self.outputs.insert(
                    output.0 as u64,
                    OutputSchedule {
                        phase: if self.paused {
                            OutputPhase::Paused
                        } else {
                            OutputPhase::Idle
                        },
                        ..OutputSchedule::initial()
                    },
                ),
                ..self
            }
        }
    }

    pub open spec fn removed(self, output: OutputId) -> Self {
        SchedulerView {
            outputs: self.outputs.remove(output.0 as u64),
            ready: without(self.ready, output.0 as u64),
            ..self
        }
    }

    pub open spec fn requested(
        self,
        output: OutputId,
        reason: RepaintReasons,
        deadline: Option<u64>,
    ) -> Self {
        let k = output.0 as u64;
        if !self.outputs.contains_key(k) {
            self
        } else {
            SchedulerView {
                outputs: self.outputs.insert(k, self.outputs[k].requested(reason, deadline)),
                ready: if self.outputs[k].phase == OutputPhase::Idle {
                    self.ready.push(k)
                } else {
                    self.ready
                },
                ..self
            }
        }
    }

    /// The scheduler with one output's schedule replaced, and queued if it is scheduled now.
    pub open spec fn rescheduled(self, k: u64, schedule: OutputSchedule) -> Self {
        SchedulerView {
            outputs: self.outputs.insert(k, schedule),
            ready: if schedule.phase == OutputPhase::Scheduled {
                self.ready.push(k)
            } else {
                self.ready
            },
            ..self
        }
    }

    pub open spec fn submitted(self, output: OutputId, frame_id: u64) -> (Self, bool) {
        let k = output.0 as u64;
        if self.outputs.contains_key(k) && self.outputs[k].phase == OutputPhase::Rendering
            && self.outputs[k].active_frame_id == Some(frame_id) {
            (
                SchedulerView {
                    outputs: self.outputs.insert(
                        k,
                        OutputSchedule {
                            phase: OutputPhase::AwaitingPresentation,
                            ..self.outputs[k]
                        },
                    ),
                    ..self
                },
                true,
            )
        } else {
            (self, false)
        }
    }

    pub open spec fn presented(self, output: OutputId, frame_id: u64) -> (Self, bool) {
        let k = output.0 as u64;
        if self.outputs.contains_key(k) && self.outputs[k].phase
            == OutputPhase::AwaitingPresentation && self.outputs[k].active_frame_id == Some(
            frame_id,
        ) {
            (self.rescheduled(k, self.outputs[k].followed_up()), true)
        } else {
            (self, false)
        }
    }

    /// The scheduler after a frame has failed, to be tried again at once or at a deadline.
    pub open spec fn failed(self, output: OutputId, frame_id: u64, deadline: Option<u64>) -> (
        Self,
        bool,
    ) {
        let k = output.0 as u64;
        if self.outputs.contains_key(k) && self.outputs[k].in_flight(frame_id) {
            (self.rescheduled(k, self.outputs[k].to_retry(deadline).followed_up()), true)
        } else {
            (self, false)
        }
    }

    pub open spec fn pausing(self) -> Self {
        SchedulerView {
            outputs: self.outputs.map_values(|s: OutputSchedule| s.paused()),
            ready: Seq::empty(),
            paused: true,
            ..self
        }
    }

    pub open spec fn resuming(self) -> Self {
        SchedulerView {
            outputs: self.outputs.map_values(|s: OutputSchedule| s.resumed()),
            ready: self.ready + paused_among(
                self.outputs,
                ranking::ascending(self.outputs.dom()),
            ),
            paused: false,
            ..self
        }
    }

    /// Whether a time is the earliest that a frame has been put off to, and none where no frame
    /// has been put off.
    pub open spec fn is_earliest(self, time: Option<u64>) -> bool {
        &&& match time {
            Some(at) => exists|k: u64| #[trigger]
                self.outputs.contains_key(k) && self.outputs[k].phase == OutputPhase::Scheduled
                    && self.outputs[k].deadline == Some(at),
            None => true,
        }
        &&& forall|k: u64| #[trigger]
            self.outputs.contains_key(k) && self.outputs[k].phase == OutputPhase::Scheduled
                && self.outputs[k].deadline is Some ==> time is Some && time->0
                <= self.outputs[k].deadline->0
    }

    /// The earliest time that a frame has been put off to.
    pub open spec fn earliest(self) -> Option<u64> {
        choose|time: Option<u64>| self.is_earliest(time)
    }

    proof fn earliest_is_unique(self, a: Option<u64>, b: Option<u64>)
        requires
            self.is_earliest(a),
            self.is_earliest(b),
        ensures
            a == b,
    {
        if let Some(at) = a {
            let k = choose|k: u64| #[trigger]
                self.outputs.contains_key(k) && self.outputs[k].phase == OutputPhase::Scheduled
                    && self.outputs[k].deadline == Some(at);
            assert(self.outputs.contains_key(k));
        }
        if let Some(at) = b {
            let k = choose|k: u64| #[trigger]
                self.outputs.contains_key(k) && self.outputs[k].phase == OutputPhase::Scheduled
                    && self.outputs[k].deadline == Some(at);
            assert(self.outputs.contains_key(k));
        }
    }

    /// Whether the output at a place of the queue may begin its frame.
    pub open spec fn eligible(self, now: u64, i: int) -> bool {
        0 <= i < self.ready.len() && self.outputs.contains_key(self.ready[i])
            && self.outputs[self.ready[i]].due(now)
    }
}

/// What is left of a queue when the selected outputs, and those that are gone, have left it.
pub open spec fn remaining(
    outputs: Map<u64, OutputSchedule>,
    queue: Seq<u64>,
    selected: Seq<u64>,
) -> Seq<u64>
    decreases queue.len(),
{
    if queue.len() == 0 {
        queue
    } else {
        let rest = remaining(outputs, queue.drop_last(), selected);
        if !selected.contains(queue.last()) && outputs.contains_key(queue.last()) {
            rest.push(queue.last())
        } else {
            rest
        }
    }
}

impl SchedulerView {
    /// The places of the queue whose outputs may begin their frames.
    pub open spec fn eligible_places(self, now: u64) -> Set<u64> {
        Set::new(|p: u64| self.eligible(now, p as int))
    }

    /// When the output at a place of the queue is to begin; later than any deadline where it
    /// has none.
    pub open spec fn urgency(self) -> spec_fn(u64) -> int {
        |p: u64|
            match self.outputs[self.ready[p as int]].deadline {
                Some(at) => at as int,
                None => u128::MAX + 1,
            }
    }

    /// The eligible places: those with a deadline first, the earliest of them before the
    /// others, and then those without, in the order of the queue.
    pub open spec fn by_urgency(self, now: u64) -> Seq<u64> {
        ranking::ranking(self.eligible_places(now), self.urgency())
    }

    /// How many of some places come before the first that has no deadline.
    pub open spec fn before_immediate(self, places: Seq<u64>) -> int
        decreases places.len(),
    {
        if places.len() == 0 || self.outputs[self.ready[places[0] as int]].deadline is None {
            0
        } else {
            1 + self.before_immediate(places.drop_first())
        }
    }

    /// The eligible places in the order in which they are served. Once a frame with a deadline
    /// has been served, those without go first.
    pub open spec fn serving_order(self, now: u64) -> Seq<u64> {
        let places = self.by_urgency(now);
        if self.consecutive_deadline_priority >= 1 {
            let n = self.before_immediate(places);
            places.skip(n) + places.take(n)
        } else {
            places
        }
    }

    /// The outputs whose frames begin.
    pub open spec fn selected(self, now: u64, budget: usize) -> Seq<u64> {
        let order = self.serving_order(now);
        let n = if budget < order.len() {
            budget as int
        } else {
            order.len() as int
        };
        Seq::new(n as nat, |i: int| self.ready[order[i] as int])
    }

    /// The scheduler when the first `n` outputs of a list have begun their frames, and the
    /// requests for these.
    pub open spec fn starting(self, list: Seq<u64>, n: int) -> (Self, Seq<RenderRequest>)
        decreases n,
    {
        if n <= 0 {
            (self, Seq::empty())
        } else {
            let (before, requests) = self.starting(list, n - 1);
            let k = list[n - 1];
            if !before.outputs.contains_key(k) {
                (before, requests)
            } else {
                let schedule = before.outputs[k];
                (
                    SchedulerView {
                        outputs: before.outputs.insert(k, schedule.begun()),
                        consecutive_deadline_priority: if schedule.deadline is None {
                            0
                        } else if before.consecutive_deadline_priority == usize::MAX {
                            usize::MAX
                        } else {
                            (before.consecutive_deadline_priority + 1) as usize
                        },
                        ..before
                    },
                    requests.push(
                        RenderRequest {
                            output: OutputId(k as u32),
                            frame_id: schedule.next_frame_id,
                            reasons: schedule.reasons,
                        },
                    ),
                )
            }
        }
    }

    /// The scheduler when due outputs have begun their frames, and the requests for these.
    pub open spec fn begun(self, now: u64, budget: usize) -> (Self, Seq<RenderRequest>) {
        let list = self.selected(now, budget);
        (SchedulerView { ready: remaining(self.outputs, self.ready, list), ..self }).starting(
            list,
            list.len() as int,
        )
    }
}

impl RepaintScheduler {
    pub fn add_output(&mut self, output: OutputId)
        ensures
            final(self)@ == old(self)@.added(output),
    {
        if self.outputs.contains_key(output.0 as u64) {
            return;
        }
        let mut schedule: OutputSchedule = OutputSchedule::default();
        if self.paused {
            schedule.phase = OutputPhase::Paused;
        }
        self.outputs.insert(output.0 as u64, schedule);
    }

    pub fn remove_output(&mut self, output: OutputId)
        ensures
            final(self)@ == old(self)@.removed(output),
    {
        let id: u64 = output.0 as u64;
        self.outputs.remove(id);
        let mut kept: Vec<u64> = Vec::new();
        let mut i: usize = 0;
        assert(self.ready@.take(0) =~= Seq::empty());
        while i < self.ready.len()
            invariant
                i <= self.ready@.len(),
                self.ready@ == old(self).ready@,
                self@ == (SchedulerView {
                    outputs: old(self)@.outputs.remove(id),
                    ..old(self)@
                }),
                kept@ == without(self.ready@.take(i as int), id),
            decreases self.ready@.len() - i,
        {
            let candidate: u64 = self.ready[i];
            assert(self.ready@.take(i + 1).drop_last() =~= self.ready@.take(i as int));
            if candidate != id {
                kept.push(candidate);
            }
            i = i + 1;
        }
        assert(self.ready@.take(i as int) =~= self.ready@);
        self.ready = kept;
    }

    pub fn phase(&self, output: OutputId) -> (r: Option<OutputPhase>)
        ensures
            r == (if self@.outputs.contains_key(output.0 as u64) {
                Some(self@.outputs[output.0 as u64].phase)
            } else {
                None
            }),
    {
        match self.outputs.get(output.0 as u64) {
            Some(schedule) => Some(schedule.phase),
            None => None,
        }
    }

    fn request_inner(&mut self, output: OutputId, reason: RepaintReasons, deadline: Option<u64>)
        ensures
            final(self)@ == old(self)@.requested(output, reason, deadline),
    {
        let k: u64 = output.0 as u64;
        let mut schedule: OutputSchedule = match self.outputs.get(k) {
            Some(schedule) => *schedule,
            None => {
                return;
            },
        };
        match schedule.phase {
            OutputPhase::Idle => {
                schedule.reasons.insert(reason);
                schedule.set_deadline(deadline, false);
                schedule.phase = OutputPhase::Scheduled;
                self.ready.push(k);
            },
            OutputPhase::Scheduled => {
                schedule.reasons.insert(reason);
                schedule.set_deadline(deadline, false);
            },
            _ => {
                schedule.dirty_after_present.insert(reason);
                schedule.set_deadline(deadline, true);
            },
        }
        self.outputs.insert(k, schedule);
    }

    /// Requests a frame at once. Several requests before a frame are one entry of the queue and
    /// a set of reasons.
    pub fn request(&mut self, output: OutputId, reason: RepaintReasons)
        ensures
            final(self)@ == old(self)@.requested(output, reason, None),
    {
        self.request_inner(output, reason, None);
    }

    /// Requests a frame at a deadline.
    pub fn request_at(&mut self, output: OutputId, reason: RepaintReasons, deadline: u64)
        ensures
            final(self)@ == old(self)@.requested(output, reason, Some(deadline)),
    {
        self.request_inner(output, reason, Some(deadline));
    }

    /// The earliest deadline of all scheduled outputs.
    pub fn earliest_deadline(&self) -> (r: Option<u64>)
        ensures
            self@.is_earliest(r),
            r == self@.earliest(),
    {
        let keys: Vec<u64> = self.outputs.keys();
        let mut earliest: Option<u64> = None;
        let mut i: usize = 0;
        while i < keys.len()
            invariant
                i <= keys@.len(),
                keys@.to_set() == self@.outputs.dom(),
                match earliest {
                    Some(at) => exists|k: u64| #[trigger]
                        self@.outputs.contains_key(k) && self@.outputs[k].phase
                            == OutputPhase::Scheduled && self@.outputs[k].deadline == Some(at),
                    None => true,
                },
                forall|j: int|
                    0 <= j < i && self@.outputs[#[trigger] keys@[j]].phase
                        == OutputPhase::Scheduled && self@.outputs[keys@[j]].deadline is Some
                        ==> earliest is Some && earliest->0 <= self@.outputs[keys@[j]].deadline->0,
            decreases keys@.len() - i,
        {
            proof {
                assert(keys@.to_set().contains(keys@[i as int]));
                assert(self@.outputs.contains_key(keys@[i as int]));
            }
            match self.outputs.get(keys[i]) {
                Some(schedule) => {
                    if schedule.phase == OutputPhase::Scheduled {
                        match schedule.deadline {
                            Some(at) => {
                                let earlier: bool = match earliest {
                                    Some(current) => at < current,
                                    None => true,
                                };
                                if earlier {
                                    earliest = Some(at);
                                }
                            },
                            None => {},
                        }
                    }
                },
                None => {},
            }
            i = i + 1;
        }
        proof {
            assert forall|k: u64| #[trigger]
                self@.outputs.contains_key(k) && self@.outputs[k].phase == OutputPhase::Scheduled
                    && self@.outputs[k].deadline is Some implies earliest is Some && earliest->0
                <= self@.outputs[k].deadline->0 by {
                assert(keys@.to_set().contains(k));
                let j = choose|j: int| 0 <= j < keys@.len() && keys@[j] == k;
                assert(self@.outputs[keys@[j]].deadline is Some);
            }
            assert(self@.is_earliest(earliest));
            self@.earliest_is_unique(earliest, self@.earliest());
        }
        earliest
    }

    /// The eligible places of the queue in the order of their urgency.
    fn rank_eligible(&self, now: u64) -> (r: Vec<u64>)
        ensures
            r@ == self@.by_urgency(now),
    {
        let ghost key = self@.urgency();
        let ghost wanted = self@.eligible_places(now);
        let mut found: RankedIds = RankedIds::new();
        let mut i: usize = 0;
        proof {
            assert(found.ids().to_set() =~= wanted.intersect(Set::new(|p: u64| p < 0)));
        }
        while i < self.ready.len()
            invariant
                i <= self.ready@.len(),
                key == self@.urgency(),
                wanted == self@.eligible_places(now),
                found.ranked_by(key),
                found.ids().to_set() == wanted.intersect(Set::new(|p: u64| p < i)),
            decreases self.ready@.len() - i,
        {
            let ghost before = Set::new(|p: u64| p < i);
            let ghost after = Set::new(|p: u64| p < i + 1);
            let place: u64 = i as u64;
            match self.outputs.get(self.ready[i]) {
                Some(schedule) => {
                    if schedule.is_due(now) {
                        let value: (bool, u128) = match schedule.deadline {
                            Some(at) => (false, at as u128),
                            None => (true, 0),
                        };
                        proof {
                            if found.ids().contains(place) {
                                assert(found.ids().to_set().contains(place));
                            }
                            assert(wanted.contains(place));
                        }
                        found.insert(value, place, Ghost(key));
                        assert(found.ids().to_set() =~= wanted.intersect(after));
                    } else {
                        assert(wanted.intersect(before) =~= wanted.intersect(after));
                    }
                },
                None => {
                    assert(wanted.intersect(before) =~= wanted.intersect(after));
                },
            }
            i = i + 1;
        }
        proof {
            assert(wanted.intersect(Set::new(|p: u64| p < i)) =~= wanted);
            found.is_the_ranking(key);
        }
        found.into_ids()
    }

    /// Begins the frames of at most `budget` due outputs.
    pub fn begin_ready(&mut self, now: u64, budget: usize) -> (r: Vec<RenderRequest>)
        ensures
            (final(self)@, r@) == old(self)@.begun(now, budget),
    {
        let places: Vec<u64> = self.rank_eligible(now);
        let ghost this = self@;
        proof {
            assert(self.ready.len() == this.ready.len());
            this.places_are_known(now);
        }
        let order: Vec<u64> = self.order_of_service(&places, Ghost(now));
        let mut selected: Vec<u64> = Vec::new();
        let mut i: usize = 0;
        while i < order.len() && i < budget
            invariant
                i <= order@.len(),
                i <= budget,
                this == self@,
                order@ == this.serving_order(now),
                forall|p: u64| #[trigger] order@.contains(p) ==> p < this.ready.len(),
                selected@.len() == i,
                forall|j: int| 0 <= j < i ==> selected@[j] == this.ready[order@[j] as int],
            decreases order@.len() - i,
        {
            assert(order@.contains(order@[i as int]));
            assert(self.ready.len() == this.ready.len());
            let place: usize = order[i] as usize;
            selected.push(self.ready[place]);
            i = i + 1;
        }
        assert(selected@ =~= this.selected(now, budget));
        self.keep_remaining(&selected);
        let ghost base = self@;
        let mut requests: Vec<RenderRequest> = Vec::new();
        let mut n: usize = 0;
        assert(requests@ =~= Seq::empty());
        while n < selected.len()
            invariant
                n <= selected@.len(),
                base.starting(selected@, n as int) == (self@, requests@),
            decreases selected@.len() - n,
        {
            let k: u64 = selected[n];
            let found: Option<OutputSchedule> = match self.outputs.get(k) {
                Some(schedule) => Some(*schedule),
                None => None,
            };
            match found {
                Some(schedule) => {
                    if schedule.deadline.is_some() {
                        if self.consecutive_deadline_priority < usize::MAX {
                            self.consecutive_deadline_priority =
                            self.consecutive_deadline_priority + 1;
                        }
                    } else {
                        self.consecutive_deadline_priority = 0;
                    }
                    let mut begun: OutputSchedule = schedule;
                    begun.deadline = None;
                    begun.immediate_pending = false;
                    begun.phase = OutputPhase::Rendering;
                    begun.reasons = RepaintReasons(0);
                    begun.next_frame_id =
                    if schedule.next_frame_id == u64::MAX {
                        1
                    } else {
                        schedule.next_frame_id + 1
                    };
                    begun.active_frame_id = Some(schedule.next_frame_id);
                    self.outputs.insert(k, begun);
                    requests.push(
                        RenderRequest {
                            output: OutputId(k as u32),
                            frame_id: schedule.next_frame_id,
                            reasons: schedule.reasons,
                        },
                    );
                },
                None => {},
            }
            n = n + 1;
        }
        requests
    }

    /// The eligible places in the order in which they are served.
    fn order_of_service(&self, places: &Vec<u64>, Ghost(now): Ghost<u64>) -> (r: Vec<u64>)
        requires
            places@ == self@.by_urgency(now),
            forall|p: u64| #[trigger]
                places@.contains(p) ==> p < self@.ready.len() && self@.outputs.contains_key(
                    self@.ready[p as int],
                ),
        ensures
            r@ == self@.serving_order(now),
            forall|p: u64| #[trigger] r@.contains(p) ==> p < self@.ready.len(),
    {
        let mut split: usize = 0;
        if self.consecutive_deadline_priority >= 1 {
            assert(places@.skip(0) =~= places@);
            while split < places.len()
                invariant_except_break
                    split <= places@.len(),
                    self@.before_immediate(places@) == split + self@.before_immediate(
                        places@.skip(split as int),
                    ),
                    forall|p: u64| #[trigger]
                        places@.contains(p) ==> p < self@.ready.len()
                            && self@.outputs.contains_key(self@.ready[p as int]),
                ensures
                    split <= places@.len(),
                    self@.before_immediate(places@) == split,
                decreases places@.len() - split,
            {
                assert(places@.contains(places@[split as int]));
                let ghost rest = places@.skip(split as int);
                assert(rest[0] == places@[split as int]);
                assert(rest.drop_first() =~= places@.skip(split + 1));
                assert(self.ready.len() == self@.ready.len());
                let place: usize = places[split] as usize;
                let immediate: bool = match self.outputs.get(self.ready[place]) {
                    Some(schedule) => schedule.deadline.is_none(),
                    None => true,
                };
                if immediate {
                    break;
                }
                split = split + 1;
            }
        }
        let mut order: Vec<u64> = Vec::new();
        let mut i: usize = split;
        while i < places.len()
            invariant
                split <= i <= places@.len(),
                order@ == places@.subrange(split as int, i as int),
            decreases places@.len() - i,
        {
            order.push(places[i]);
            i = i + 1;
            assert(order@ =~= places@.subrange(split as int, i as int));
        }
        let mut i: usize = 0;
        assert(order@ =~= places@.skip(split as int) + places@.take(0));
        while i < split
            invariant
                i <= split <= places@.len(),
                order@ == places@.skip(split as int) + places@.take(i as int),
            decreases split - i,
        {
            order.push(places[i]);
            i = i + 1;
            assert(order@ =~= places@.skip(split as int) + places@.take(i as int));
        }
        proof {
            if self.consecutive_deadline_priority < 1 {
                assert(order@ =~= places@);
            }
            assert forall|p: u64| #[trigger] order@.contains(p) implies p < self@.ready.len() by {
                let k = choose|k: int| 0 <= k < order@.len() && order@[k] == p;
                let m = if k < places@.len() - split {
                    k + split
                } else {
                    k - (places@.len() - split)
                };
                assert(places@[m] == p);
                assert(places@.contains(p));
            }
        }
        order
    }

    /// Takes the selected outputs from the queue, and those that are gone.
    fn keep_remaining(&mut self, selected: &Vec<u64>)
        ensures
            final(self)@ == (SchedulerView {
                ready: remaining(old(self)@.outputs, old(self)@.ready, selected@),
                ..old(self)@
            }),
    {
        let mut kept: Vec<u64> = Vec::new();
        let mut i: usize = 0;
        assert(self.ready@.take(0) =~= Seq::empty());
        while i < self.ready.len()
            invariant
                i <= self.ready@.len(),
                self@ == old(self)@,
                kept@ == remaining(self@.outputs, self.ready@.take(i as int), selected@),
            decreases self.ready@.len() - i,
        {
            let k: u64 = self.ready[i];
            assert(self.ready@.take(i + 1).drop_last() =~= self.ready@.take(i as int));
            if !is_listed(selected, k) && self.outputs.contains_key(k) {
                kept.push(k);
            }
            i = i + 1;
        }
        assert(self.ready@.take(i as int) =~= self.ready@);
        self.ready = kept;
    }

    /// The frame has been handed to the display. Returns whether it was the one being rendered.
    pub fn submitted(&mut self, output: OutputId, frame_id: u64) -> (r: bool)
        ensures
            (final(self)@, r) == old(self)@.submitted(output, frame_id),
    {
        let k: u64 = output.0 as u64;
        let mut schedule: OutputSchedule = match self.outputs.get(k) {
            Some(schedule) => *schedule,
            None => {
                return false;
            },
        };
        if schedule.phase != OutputPhase::Rendering || !schedule.is_in_flight(frame_id) {
            return false;
        }
        schedule.phase = OutputPhase::AwaitingPresentation;
        self.outputs.insert(k, schedule);
        true
    }

    /// Queues an output with a new schedule if it is scheduled now.
    fn reschedule(&mut self, k: u64, schedule: OutputSchedule)
        ensures
            final(self)@ == old(self)@.rescheduled(k, schedule),
    {
        self.outputs.insert(k, schedule);
        if schedule.phase == OutputPhase::Scheduled {
            self.ready.push(k);
        }
    }

    /// The frame is on the display. Returns whether it was the one that was awaited.
    pub fn presented(&mut self, output: OutputId, frame_id: u64) -> (r: bool)
        ensures
            (final(self)@, r) == old(self)@.presented(output, frame_id),
    {
        let k: u64 = output.0 as u64;
        let mut schedule: OutputSchedule = match self.outputs.get(k) {
            Some(schedule) => *schedule,
            None => {
                return false;
            },
        };
        if schedule.phase != OutputPhase::AwaitingPresentation || !schedule.is_in_flight(frame_id) {
            return false;
        }
        schedule.follow_up();
        self.reschedule(k, schedule);
        true
    }

    /// The frame has failed, and all of it is to be painted again at once. No deadline of other
    /// work puts that off.
    pub fn failed(&mut self, output: OutputId, frame_id: u64) -> (r: bool)
        ensures
            (final(self)@, r) == old(self)@.failed(output, frame_id, None),
    {
        let k: u64 = output.0 as u64;
        let mut schedule: OutputSchedule = match self.outputs.get(k) {
            Some(schedule) => *schedule,
            None => {
                return false;
            },
        };
        if !schedule.is_in_flight(frame_id) {
            return false;
        }
        schedule.dirty_after_present.insert(RepaintReasons::full_repaint());
        schedule.dirty_immediate = true;
        schedule.deadline = None;
        schedule.follow_up();
        self.reschedule(k, schedule);
        true
    }

    /// The frame has failed, and all of it is to be painted again at a deadline, so that
    /// neither callbacks starve nor retries keep the session busy.
    pub fn retry_at(&mut self, output: OutputId, frame_id: u64, deadline: u64) -> (r: bool)
        ensures
            (final(self)@, r) == old(self)@.failed(output, frame_id, Some(deadline)),
    {
        let k: u64 = output.0 as u64;
        let mut schedule: OutputSchedule = match self.outputs.get(k) {
            Some(schedule) => *schedule,
            None => {
                return false;
            },
        };
        if !schedule.is_in_flight(frame_id) {
            return false;
        }
        schedule.dirty_after_present.insert(RepaintReasons::full_repaint());
        schedule.dirty_immediate = false;
        schedule.deadline = Some(deadline);
        schedule.follow_up();
        self.reschedule(k, schedule);
        true
    }

    /// Stops all outputs. Their work is kept.
    pub fn pause(&mut self)
        ensures
            final(self)@ == old(self)@.pausing(),
    {
        let keys: Vec<u64> = self.outputs.keys();
        let ghost before = self@.outputs;
        let mut i: usize = 0;
        while i < keys.len()
            invariant
                i <= keys@.len(),
                keys@.to_set() == before.dom(),
                id_map::ascend(keys@),
                before == old(self)@.outputs,
                self@.outputs.dom() == before.dom(),
                forall|j: int|
                    0 <= j < i ==> self@.outputs[#[trigger] keys@[j]] == before[keys@[j]].paused(),
                forall|j: int|
                    i <= j < keys@.len() ==> self@.outputs[#[trigger] keys@[j]]
                        == before[keys@[j]],
                self@ == (SchedulerView { outputs: self@.outputs, ..old(self)@ }),
            decreases keys@.len() - i,
        {
            let k: u64 = keys[i];
            proof {
                assert(keys@.to_set().contains(keys@[i as int]));
            }
            let found: Option<OutputSchedule> = match self.outputs.get(k) {
                Some(schedule) => Some(*schedule),
                None => None,
            };
            match found {
                Some(schedule) => {
                    let mut schedule: OutputSchedule = schedule;
                    if schedule.phase != OutputPhase::Idle {
                        let reasons: RepaintReasons = schedule.reasons;
                        schedule.dirty_after_present.insert(reasons);
                    }
                    schedule.reasons = RepaintReasons(0);
                    schedule.deadline = None;
                    schedule.immediate_pending = false;
                    schedule.dirty_immediate = false;
                    schedule.active_frame_id = None;
                    schedule.phase = OutputPhase::Paused;
                    self.outputs.insert(k, schedule);
                },
                None => {},
            }
            assert(self@.outputs.dom() =~= before.dom());
            i = i + 1;
        }
        self.paused = true;
        self.ready = Vec::new();
        proof {
            assert(self.ready@ =~= Seq::empty());
            let f = |s: OutputSchedule| s.paused();
            assert forall|k: u64| before.contains_key(k) implies self@.outputs[k] == f(
                before[k],
            ) by {
                assert(keys@.to_set().contains(k));
                let x = choose|x: int| 0 <= x < keys@.len() && keys@[x] == k;
                assert(self@.outputs[keys@[x]] == before[keys@[x]].paused());
            }
            assert(self@.outputs =~= before.map_values(f));
        }
    }

    /// Lets all outputs go on, each with a repaint of everything.
    pub fn resume(&mut self)
        ensures
            final(self)@ == old(self)@.resuming(),
    {
        let keys: Vec<u64> = self.outputs.keys();
        let ghost before = self@.outputs;
        let ghost queue = self@.ready;
        let mut i: usize = 0;
        assert(keys@.take(0) =~= Seq::empty());
        assert(queue + paused_among(before, keys@.take(0)) =~= queue);
        while i < keys.len()
            invariant
                i <= keys@.len(),
                keys@.to_set() == before.dom(),
                id_map::ascend(keys@),
                before == old(self)@.outputs,
                queue == old(self)@.ready,
                self@.outputs.dom() == before.dom(),
                forall|j: int|
                    0 <= j < i ==> self@.outputs[#[trigger] keys@[j]]
                        == before[keys@[j]].resumed(),
                forall|j: int|
                    i <= j < keys@.len() ==> self@.outputs[#[trigger] keys@[j]]
                        == before[keys@[j]],
                self@ == (SchedulerView {
                    outputs: self@.outputs,
                    ready: queue + paused_among(before, keys@.take(i as int)),
                    ..old(self)@
                }),
            decreases keys@.len() - i,
        {
            let k: u64 = keys[i];
            proof {
                assert(keys@.to_set().contains(keys@[i as int]));
                assert(keys@.take(i + 1).drop_last() =~= keys@.take(i as int));
            }
            let found: Option<OutputSchedule> = match self.outputs.get(k) {
                Some(schedule) => Some(*schedule),
                None => None,
            };
            match found {
                Some(schedule) => {
                    if schedule.phase == OutputPhase::Paused {
                        let mut schedule: OutputSchedule = schedule;
                        schedule.reasons = schedule.dirty_after_present;
                        schedule.reasons.insert(RepaintReasons::full_repaint());
                        schedule.dirty_after_present = RepaintReasons(0);
                        schedule.deadline = None;
                        schedule.immediate_pending = true;
                        schedule.dirty_immediate = false;
                        schedule.phase = OutputPhase::Scheduled;
                        self.outputs.insert(k, schedule);
                        let ghost list = self.ready@;
                        self.ready.push(k);
                        assert(self.ready@ =~= queue + paused_among(
                            before,
                            keys@.take(i as int),
                        ).push(k));
                    }
                },
                None => {},
            }
            assert(self@.outputs.dom() =~= before.dom());
            i = i + 1;
        }
        self.paused = false;
        proof {
            assert(keys@.take(i as int) =~= keys@);
            let f = |s: OutputSchedule| s.resumed();
            assert forall|k: u64| before.contains_key(k) implies self@.outputs[k] == f(
                before[k],
            ) by {
                assert(keys@.to_set().contains(k));
                let x = choose|x: int| 0 <= x < keys@.len() && keys@[x] == k;
                assert(self@.outputs[keys@[x]] == before[keys@[x]].resumed());
            }
            assert(self@.outputs =~= before.map_values(f));
        }
    }

    /// Whether a frame may begin now.
    pub fn has_ready_at(&self, now: u64) -> (r: bool)
        ensures
            r == (exists|i: int| self@.eligible(now, i)),
    {
        let mut i: usize = 0;
        while i < self.ready.len()
            invariant
                i <= self.ready@.len(),
                forall|j: int| 0 <= j < i ==> !self@.eligible(now, j),
            decreases self.ready@.len() - i,
        {
            match self.outputs.get(self.ready[i]) {
                Some(schedule) => {
                    if schedule.is_due(now) {
                        assert(self@.eligible(now, i as int));
                        return true;
                    }
                },
                None => {},
            }
            assert(!self@.eligible(now, i as int));
            i = i + 1;
        }
        false
    }
}

fn is_listed(list: &Vec<u64>, id: u64) -> (r: bool)
    ensures
        r == list@.contains(id),
{
    let mut i: usize = 0;
    while i < list.len()
        invariant
            i <= list@.len(),
            forall|j: int| 0 <= j < i ==> list@[j] != id,
        decreases list@.len() - i,
    {
        if list[i] == id {
            assert(list@[i as int] == id);
            return true;
        }
        i = i + 1;
    }
    false
}

impl SchedulerView {
    /// Places that are served are places of the queue.
    pub proof fn places_are_known(self, now: u64)
        requires
            self.ready.len() <= u64::MAX,
        ensures
            self.eligible_places(now).finite(),
            forall|p: u64| #[trigger]
                self.by_urgency(now).contains(p) ==> self.eligible(now, p as int) && p
                    < self.ready.len() && self.outputs.contains_key(self.ready[p as int]),
            self.by_urgency(now).to_set() == self.eligible_places(now),
            self.by_urgency(now).no_duplicates(),
            ranking::is_ranked(self.by_urgency(now), self.urgency()),
    {
        let all = Seq::new(self.ready.len(), |i: int| i as u64);
        let places = self.eligible_places(now);
        assert forall|p: u64| places.contains(p) implies all.to_set().contains(p) by {
            assert(all[p as int] == p);
        }
        vstd::seq_lib::seq_to_set_is_finite(all);
        vstd::set_lib::lemma_set_subset_finite(all.to_set(), places);
        ranking::ranking_ranks(places, self.urgency());
        let order = self.by_urgency(now);
        assert forall|p: u64| #[trigger] order.contains(p) implies self.eligible(
            now,
            p as int,
        ) by {
            assert(order.to_set().contains(p));
        }
    }
}

/// A frame that is ready to be submitted, and the fence that says when the GPU is done with it.
pub type Prepared<Frame, Fence> = (Frame, Option<Fence>);

/// The four stages of a frame, none of which waits for the GPU or for a presentation.
pub trait Backend {
    type FrameSnapshot;

    type PreparedFrame;

    type Fence;

    type Error;

    fn request_redraw(&mut self, output: OutputId);

    fn prepare(&mut self, request: RenderRequest, snapshot: Self::FrameSnapshot) -> Result<
        Prepared<Self::PreparedFrame, Self::Fence>,
        Self::Error,
    >;

    fn submit(&mut self, frame: Self::PreparedFrame) -> Result<(), Self::Error>;

    fn pause(&mut self);

    fn resume(&mut self) -> Result<(), Self::Error>;
}

} // verus!
