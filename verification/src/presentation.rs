//! The frames of the native backend on their way to the screen.
//!
//! Rendering, fences and the display hardware are outside. What they report comes in as plain
//! values, and what they are to do goes out the same way. Times are counted in nanoseconds.

use crate::id_map::{IdMap, IdSet};
use crate::model::OutputId;
use crate::nested;
use crate::nested::has_come;
use crate::ranking;
use crate::runtime;
use crate::runtime::{RenderRequest, RepaintScheduler};
use vstd::prelude::*;

verus! {

pub const MAX_FRAMES_PER_BATCH: usize = 4;

pub const DEFAULT_RETRACE: u64 = 16_000_000;

pub const FENCE_RECHECK_INITIAL: u64 = 1_000_000;

pub const FENCE_TIMEOUT: u64 = 2_000_000_000;

/// A frame that was handed over and has not been shown yet.
#[derive(Clone, Copy, Debug, Eq, PartialEq, Structural)]
pub struct PendingFrame {
    pub frame_id: u64,
    /// The hardware will report it. A frame without changes is not handed to the hardware and
    /// counts as shown at its deadline.
    pub queued: bool,
    pub deadline: Option<u64>,
    pub lock_generation: Option<u64>,
    pub power_mode: Option<bool>,
}

/// A frame that is still being drawn, with a fence that must be looked at again and again.
#[derive(Clone, Copy, Debug, Eq, PartialEq, Structural)]
pub struct WaitingFence {
    pub frame_id: u64,
    pub deadline: u64,
    pub delay: u64,
    pub expires_at: u64,
    pub lock_generation: Option<u64>,
    pub power_mode: Option<bool>,
}

/// A frame that is still being drawn, with a fence that reports by itself.
#[derive(Clone, Copy, Debug, Eq, PartialEq, Structural)]
pub struct ExportedFence {
    pub frame_id: u64,
    pub deadline: u64,
}

/// What is under way on an output.
#[derive(Clone, Copy, Debug, Eq, PartialEq, Structural)]
pub struct Surface {
    /// The device that the output is on.
    pub device: u64,
    /// The connector of the device that the output is on, until its plug is pulled.
    pub connector: Option<u64>,
    /// How long a frame is shown.
    pub retrace: u64,
    pub pending: Option<PendingFrame>,
    pub waiting_fence: Option<WaitingFence>,
    pub exported_fence: Option<ExportedFence>,
    /// The power mode that is wanted.
    pub requested_power_mode: Option<bool>,
    /// The power mode that comes with the next frame.
    pub committing_power_mode: Option<bool>,
}

impl View for Surface {
    type V = Surface;

    open spec fn view(&self) -> Surface {
        *self
    }
}

impl Surface {
    pub open spec fn idle(self) -> bool {
        self.pending is None && self.waiting_fence is None && self.exported_fence is None
            && self.committing_power_mode is None
    }

    /// The surface when its device may not be used: nothing is under way, and a change of power
    /// is wanted again.
    pub open spec fn paused(self) -> Self {
        Surface {
            requested_power_mode: match self.committing_power_mode {
                Some(powered) => Some(powered),
                None => self.requested_power_mode,
            },
            committing_power_mode: None,
            pending: None,
            waiting_fence: None,
            exported_fence: None,
            ..self
        }
    }

    /// The surface with nothing under way.
    pub open spec fn stopped(self) -> Self {
        Surface { pending: None, waiting_fence: None, exported_fence: None, ..self }
    }
}

/// A frame that has been shown.
#[derive(Clone, Copy, Debug, Eq, PartialEq, Structural)]
pub struct Shown {
    pub output: OutputId,
    pub frame_id: u64,
    pub lock_generation: Option<u64>,
    pub power_mode: Option<bool>,
}

/// A frame whose drawing is done.
#[derive(Clone, Copy, Debug, Eq, PartialEq, Structural)]
pub struct Prepared {
    pub output: OutputId,
    pub frame_id: u64,
    pub lock_generation: Option<u64>,
    pub power_mode: Option<bool>,
}

/// What the hardware says of the frame that it was showing.
#[derive(Clone, Copy, Debug, Eq, PartialEq, Structural)]
pub enum Retired {
    Frame(u64),
    Nothing,
    Failed,
}

/// How one learns that the drawing of a frame is done.
#[derive(Clone, Copy, Debug, Eq, PartialEq, Structural)]
pub struct Fence {
    /// The frame may not be handed over before the drawing is done.
    pub needed: bool,
    /// It was drawn to a buffer of our own, which has a fence; a buffer of a client has none.
    pub composed: bool,
    /// Where the fence can report by itself, whether it could be waited for.
    pub exported: Option<bool>,
    /// The drawing is done already.
    pub reached: bool,
}

/// What came of drawing a frame.
#[derive(Clone, Copy, Debug, Eq, PartialEq, Structural)]
pub enum Rendered {
    /// There was nothing to draw it with.
    NoRenderer,
    /// It could not be drawn.
    Failed,
    /// Nothing is different from the frame before.
    Empty,
    Drawn(Fence),
}

#[derive(Debug)]
pub struct NativeLoop {
    pub scheduler: RepaintScheduler,
    pub surfaces: IdMap<Surface>,
    /// The devices, and whether each may be used.
    pub devices: IdMap<bool>,
    /// The devices that came while the session was paused.
    pub deferred: IdSet,
    /// The number of the next output.
    pub next_output_id: u32,
    pub session_active: bool,
    pub shutdown_deadline: Option<u64>,
}

#[verifier::ext_equal]
pub struct NativeView {
    pub scheduler: runtime::SchedulerView,
    pub surfaces: Map<u64, Surface>,
    pub devices: Map<u64, bool>,
    pub deferred: Set<u64>,
    pub next_output_id: u32,
    pub session_active: bool,
    pub shutdown_deadline: Option<u64>,
}

impl View for NativeLoop {
    type V = NativeView;

    open spec fn view(&self) -> NativeView {
        NativeView {
            scheduler: self.scheduler@,
            surfaces: self.surfaces@,
            devices: self.devices@,
            deferred: self.deferred@,
            next_output_id: self.next_output_id,
            session_active: self.session_active,
            shutdown_deadline: self.shutdown_deadline,
        }
    }
}

/// The output under a key.
pub open spec fn output(k: u64) -> OutputId {
    OutputId(k as u32)
}

impl NativeView {
    pub open spec fn fresh() -> Self {
        NativeView {
            scheduler: runtime::SchedulerView::fresh(),
            surfaces: Map::empty(),
            devices: Map::empty(),
            deferred: Set::empty(),
            next_output_id: 1,
            session_active: true,
            shutdown_deadline: None,
        }
    }

    pub open spec fn keys(self) -> Seq<u64> {
        ranking::ascending(self.surfaces.dom())
    }

    pub open spec fn with_surface(self, k: u64, surface: Surface) -> Self {
        NativeView { surfaces: self.surfaces.insert(k, surface), ..self }
    }

    /// The loop when a frame is to be drawn again after a while.
    pub open spec fn retrying(self, k: u64, frame_id: u64, now: u64, delay: u64) -> Self {
        NativeView {
            scheduler: self.scheduler.failed(
                output(k),
                frame_id,
                Some(nested::later(now, delay)),
            ).0,
            ..self
        }
    }

    /// The loop when a frame has been shown, and the frame if it was the one that was waited for.
    /// A change of power that came with it is done.
    pub open spec fn showing(self, k: u64, frame: PendingFrame) -> (Self, Option<Shown>) {
        let (scheduler, accepted) = self.scheduler.presented(output(k), frame.frame_id);
        if !accepted {
            (NativeView { scheduler, ..self }, None)
        } else {
            let surface = self.surfaces[k];
            (
                NativeView {
                    scheduler: if frame.power_mode == Some(false) {
                        scheduler.removed(output(k))
                    } else {
                        scheduler
                    },
                    surfaces: if frame.power_mode is Some {
                        self.surfaces.insert(
                            k,
                            Surface { committing_power_mode: None, ..surface },
                        )
                    } else {
                        self.surfaces
                    },
                    ..self
                },
                Some(
                    Shown {
                        output: output(k),
                        frame_id: frame.frame_id,
                        lock_generation: frame.lock_generation,
                        power_mode: frame.power_mode,
                    },
                ),
            )
        }
    }

    /// The loop when the hardware has reported on an output, and the frame that was shown.
    pub open spec fn retired(self, k: u64, retired: Retired, now: u64) -> (Self, Option<Shown>) {
        if !self.surfaces.contains_key(k) {
            (self, None)
        } else {
            let surface = self.surfaces[k];
            let without = self.with_surface(k, Surface { pending: None, ..surface });
            match (retired, surface.pending) {
                (Retired::Frame(id), Some(frame)) => if frame.queued && frame.frame_id == id {
                    without.showing(k, frame)
                } else {
                    (self, None)
                },
                (Retired::Failed, Some(frame)) => (
                    without.retrying(k, frame.frame_id, now, surface.retrace),
                    None,
                ),
                _ => (self, None),
            }
        }
    }

    /// The loop when all that is under way on an output has failed.
    pub open spec fn surface_failed(self, k: u64, now: u64) -> Self {
        let surface = self.surfaces[k];
        let first = match surface.pending {
            Some(frame) => self.retrying(k, frame.frame_id, now, surface.retrace),
            None => self,
        };
        let second = match surface.waiting_fence {
            Some(fence) => first.retrying(k, fence.frame_id, now, surface.retrace),
            None => first,
        };
        let third = match surface.exported_fence {
            Some(fence) => second.retrying(k, fence.frame_id, now, surface.retrace),
            None => second,
        };
        third.with_surface(k, surface.stopped())
    }

    /// The loop when all that is under way on a device has failed, for the first `n` outputs of a
    /// list.
    pub open spec fn device_failed(self, device: u64, keys: Seq<u64>, n: int, now: u64) -> Self
        decreases n,
    {
        if n <= 0 {
            self
        } else {
            let before = self.device_failed(device, keys, n - 1, now);
            if self.surfaces[keys[n - 1]].device == device {
                before.surface_failed(keys[n - 1], now)
            } else {
                before
            }
        }
    }

    /// Whether a frame without changes counts as shown by now.
    pub open spec fn due(self, k: u64, now: u64) -> bool {
        self.surfaces[k].pending matches Some(frame) && !frame.queued && nested::come(
            frame.deadline,
            now,
        )
    }

    /// The loop when the frames without changes that are due have been shown, for the first `n`
    /// outputs of a list, and those frames.
    pub open spec fn software_shown(self, keys: Seq<u64>, n: int, now: u64) -> (Self, Seq<Shown>)
        decreases n,
    {
        if n <= 0 {
            (self, Seq::empty())
        } else {
            let (before, list) = self.software_shown(keys, n - 1, now);
            let k = keys[n - 1];
            if before.due(k, now) {
                let surface = before.surfaces[k];
                let (after, shown) = before.with_surface(
                    k,
                    Surface { pending: None, ..surface },
                ).showing(k, surface.pending->0);
                (
                    after,
                    match shown {
                        Some(shown) => list.push(shown),
                        None => list,
                    },
                )
            } else {
                (before, list)
            }
        }
    }

    /// The loop when the fences of an output have been looked at, and the frame whose drawing is
    /// done. A fence that has been waited for too long makes its frame fail; one that is not
    /// reached is looked at again later, each time later than before.
    pub open spec fn fences_checked(self, k: u64, reached: bool, now: u64) -> (
        Self,
        Option<Prepared>,
    ) {
        let surface = self.surfaces[k];
        let (first, prepared) = match surface.waiting_fence {
            Some(fence) => if fence.deadline > now {
                (self, None)
            } else if reached {
                (
                    self.with_surface(k, Surface { waiting_fence: None, ..surface }),
                    Some(
                        Prepared {
                            output: output(k),
                            frame_id: fence.frame_id,
                            lock_generation: fence.lock_generation,
                            power_mode: fence.power_mode,
                        },
                    ),
                )
            } else if fence.expires_at <= now {
                (
                    self.with_surface(
                        k,
                        Surface { waiting_fence: None, ..surface },
                    ).retrying(k, fence.frame_id, now, surface.retrace),
                    None,
                )
            } else {
                let delay = backed_off(fence.delay, surface.retrace);
                (
                    self.with_surface(
                        k,
                        Surface {
                            waiting_fence: Some(
                                WaitingFence {
                                    delay,
                                    deadline: nested::later(now, delay),
                                    ..fence
                                },
                            ),
                            ..surface
                        },
                    ),
                    None,
                )
            },
            None => (self, None),
        };
        match surface.exported_fence {
            Some(fence) => if fence.deadline <= now {
                (
                    first.with_surface(
                        k,
                        Surface { exported_fence: None, ..first.surfaces[k] },
                    ).retrying(k, fence.frame_id, now, surface.retrace),
                    prepared,
                )
            } else {
                (first, prepared)
            },
            None => (first, prepared),
        }
    }

    /// The loop when the fences of the first `n` outputs of a list have been looked at, and the
    /// frames whose drawing is done.
    pub open spec fn all_fences_checked(
        self,
        keys: Seq<u64>,
        n: int,
        reached: Seq<OutputId>,
        now: u64,
    ) -> (Self, Seq<Prepared>)
        decreases n,
    {
        if n <= 0 {
            (self, Seq::empty())
        } else {
            let (before, list) = self.all_fences_checked(keys, n - 1, reached, now);
            let k = keys[n - 1];
            let (after, prepared) = before.fences_checked(k, reached.contains(output(k)), now);
            (
                after,
                match prepared {
                    Some(frame) => list.push(frame),
                    None => list,
                },
            )
        }
    }

    /// The loop when the drawing of a frame is done, and whether it is still wanted.
    pub open spec fn prepared(self, k: u64, frame_id: u64) -> (Self, bool) {
        if !self.surfaces.contains_key(k) {
            (self, false)
        } else {
            let surface = self.surfaces[k];
            let (scheduler, accepted) = self.scheduler.submitted(output(k), frame_id);
            let same = surface.exported_fence matches Some(fence) && fence.frame_id == frame_id;
            (
                NativeView {
                    scheduler,
                    surfaces: if same {
                        self.surfaces.insert(k, Surface { exported_fence: None, ..surface })
                    } else {
                        self.surfaces
                    },
                    ..self
                },
                accepted,
            )
        }
    }

    /// The loop when a frame has been handed to the hardware, which took it or not.
    pub open spec fn handed_over(self, frame: Prepared, taken: bool, now: u64) -> Self {
        let k = frame.output.0 as u64;
        if !self.surfaces.contains_key(k) {
            self
        } else if !taken {
            self.retrying(k, frame.frame_id, now, self.surfaces[k].retrace)
        } else {
            self.with_surface(
                k,
                Surface {
                    pending: Some(
                        PendingFrame {
                            frame_id: frame.frame_id,
                            queued: true,
                            deadline: None,
                            lock_generation: frame.lock_generation,
                            power_mode: frame.power_mode,
                        },
                    ),
                    ..self.surfaces[k]
                },
            )
        }
    }

    /// The loop when a frame has been drawn, or could not be, and the frame if it is to be handed
    /// to the hardware now.
    pub open spec fn drawn(
        self,
        request: RenderRequest,
        rendered: Rendered,
        lock_generation: Option<u64>,
        now: u64,
    ) -> (Self, Option<Prepared>) {
        let k = request.output.0 as u64;
        if rendered is NoRenderer {
            (self.retrying(k, request.frame_id, now, DEFAULT_RETRACE), None)
        } else if !self.surfaces.contains_key(k) {
            (NativeView { scheduler: self.scheduler.removed(request.output), ..self }, None)
        } else {
            let surface = self.surfaces[k];
            let power_mode = surface.committing_power_mode;
            match rendered {
                Rendered::Empty => {
                    let (scheduler, accepted) = self.scheduler.submitted(
                        request.output,
                        request.frame_id,
                    );
                    let after = NativeView { scheduler, ..self };
                    let pending = PendingFrame {
                        frame_id: request.frame_id,
                        queued: false,
                        deadline: Some(nested::later(now, surface.retrace)),
                        lock_generation,
                        power_mode,
                    };
                    if accepted {
                        (after.with_surface(k, Surface { pending: Some(pending), ..surface }), None)
                    } else {
                        (after, None)
                    }
                },
                Rendered::Drawn(fence) => if fence.needed && fence.composed
                    && fence.exported is Some {
                    if fence.exported->0 {
                        let waiting = ExportedFence {
                            frame_id: request.frame_id,
                            deadline: nested::later(now, FENCE_TIMEOUT),
                        };
                        (
                            self.with_surface(
                                k,
                                Surface { exported_fence: Some(waiting), ..surface },
                            ),
                            None,
                        )
                    } else {
                        (self.retrying(k, request.frame_id, now, surface.retrace), None)
                    }
                } else if fence.needed && fence.composed && !fence.reached {
                    let waiting = WaitingFence {
                        frame_id: request.frame_id,
                        deadline: nested::later(now, FENCE_RECHECK_INITIAL),
                        delay: FENCE_RECHECK_INITIAL,
                        expires_at: nested::later(now, FENCE_TIMEOUT),
                        lock_generation,
                        power_mode,
                    };
                    (
                        self.with_surface(k, Surface { waiting_fence: Some(waiting), ..surface }),
                        None,
                    )
                } else {
                    let (scheduler, accepted) = self.scheduler.submitted(
                        request.output,
                        request.frame_id,
                    );
                    let frame = Prepared {
                        output: request.output,
                        frame_id: request.frame_id,
                        lock_generation,
                        power_mode,
                    };
                    (
                        NativeView { scheduler, ..self },
                        if accepted {
                            Some(frame)
                        } else {
                            None
                        },
                    )
                },
                _ => (self.retrying(k, request.frame_id, now, surface.retrace), None),
            }
        }
    }
}

/// A wait twice as long as before, but no longer than a frame is shown.
pub open spec fn backed_off(delay: u64, retrace: u64) -> u64 {
    if 2 * delay < retrace {
        (2 * delay) as u64
    } else {
        retrace
    }
}

pub(crate) fn is_listed(list: &Vec<OutputId>, id: OutputId) -> (r: bool)
    ensures
        r == list@.contains(id),
{
    let mut i: usize = 0;
    while i < list.len()
        invariant
            i <= list@.len(),
            forall|j: int| 0 <= j < i ==> list@[j] != id,
        decreases list@.len() - i,
    {
        if list[i] == id {
            return true;
        }
        i = i + 1;
    }
    false
}

fn back_off(delay: u64, retrace: u64) -> (r: u64)
    ensures
        r == backed_off(delay, retrace),
{
    let longer: u64 = delay.saturating_add(delay);
    if longer < retrace {
        longer
    } else {
        retrace
    }
}

impl NativeLoop {
    pub fn new() -> (r: Self)
        ensures
            r@ == NativeView::fresh(),
    {
        NativeLoop {
            scheduler: RepaintScheduler::default(),
            surfaces: IdMap::new(),
            devices: IdMap::new(),
            deferred: IdSet::new(),
            next_output_id: 1,
            session_active: true,
            shutdown_deadline: None,
        }
    }

    pub(crate) fn surface(&self, k: u64) -> (r: Option<Surface>)
        ensures
            match r {
                Some(surface) => self@.surfaces.contains_key(k) && surface == self@.surfaces[k],
                None => !self@.surfaces.contains_key(k),
            },
    {
        match self.surfaces.get(k) {
            Some(surface) => Some(*surface),
            None => None,
        }
    }

    pub(crate) fn set_surface(&mut self, k: u64, surface: Surface)
        ensures
            final(self)@ == old(self)@.with_surface(k, surface),
    {
        self.surfaces.insert(k, surface);
    }

    fn retry(&mut self, k: u64, frame_id: u64, now: u64, delay: u64)
        ensures
            final(self)@ == old(self)@.retrying(k, frame_id, now, delay),
    {
        self.scheduler.retry_at(OutputId(k as u32), frame_id, now.saturating_add(delay));
    }

    fn show(&mut self, k: u64, frame: PendingFrame) -> (r: Option<Shown>)
        requires
            old(self)@.surfaces.contains_key(k),
        ensures
            (final(self)@, r) == old(self)@.showing(k, frame),
    {
        let id: OutputId = OutputId(k as u32);
        if !self.scheduler.presented(id, frame.frame_id) {
            return None;
        }
        if let Some(powered) = frame.power_mode {
            if let Some(mut surface) = self.surface(k) {
                surface.committing_power_mode = None;
                self.set_surface(k, surface);
            }
            if !powered {
                self.scheduler.remove_output(id);
            }
        }
        Some(
            Shown {
                output: id,
                frame_id: frame.frame_id,
                lock_generation: frame.lock_generation,
                power_mode: frame.power_mode,
            },
        )
    }

    /// Takes in what the hardware reports on an output. Gives the frame that was shown.
    pub fn frame_submitted(&mut self, output: OutputId, retired: Retired, now: u64) -> (r: Option<
        Shown,
    >)
        ensures
            (final(self)@, r) == old(self)@.retired(output.0 as u64, retired, now),
    {
        let k: u64 = output.0 as u64;
        let mut surface: Surface = match self.surface(k) {
            Some(surface) => surface,
            None => {
                return None;
            },
        };
        let frame: PendingFrame = match surface.pending {
            Some(frame) => frame,
            None => {
                return None;
            },
        };
        surface.pending = None;
        match retired {
            Retired::Frame(id) => {
                if !frame.queued || frame.frame_id != id {
                    return None;
                }
                self.set_surface(k, surface);
                self.show(k, frame)
            },
            Retired::Failed => {
                self.set_surface(k, surface);
                self.retry(k, frame.frame_id, now, surface.retrace);
                None
            },
            Retired::Nothing => None,
        }
    }

    fn fail_surface(&mut self, k: u64, now: u64)
        requires
            old(self)@.surfaces.contains_key(k),
        ensures
            final(self)@ == old(self)@.surface_failed(k, now),
    {
        if let Some(mut surface) = self.surface(k) {
            if let Some(frame) = surface.pending {
                self.retry(k, frame.frame_id, now, surface.retrace);
            }
            if let Some(fence) = surface.waiting_fence {
                self.retry(k, fence.frame_id, now, surface.retrace);
            }
            if let Some(fence) = surface.exported_fence {
                self.retry(k, fence.frame_id, now, surface.retrace);
            }
            surface.pending = None;
            surface.waiting_fence = None;
            surface.exported_fence = None;
            self.set_surface(k, surface);
        }
    }

    /// Takes in that a device has failed: what was under way on its outputs is drawn again.
    pub fn fail_device_frames(&mut self, device: u64, now: u64)
        ensures
            final(self)@ == old(self)@.device_failed(
                device,
                old(self)@.keys(),
                old(self)@.keys().len() as int,
                now,
            ),
    {
        let keys: Vec<u64> = self.surfaces.keys();
        let ghost start = self@;
        let mut i: usize = 0;
        while i < keys.len()
            invariant
                i <= keys@.len(),
                keys@ == start.keys(),
                keys@.to_set() == start.surfaces.dom(),
                self@ == start.device_failed(device, keys@, i as int, now),
                self@.surfaces.dom() == start.surfaces.dom(),
                forall|k: u64| #[trigger]
                    self@.surfaces.contains_key(k) ==> self@.surfaces[k].device
                        == start.surfaces[k].device,
            decreases keys@.len() - i,
        {
            let k: u64 = keys[i];
            assert(keys@.to_set().contains(k));
            assert(self@.surfaces.contains_key(k));
            let ours: bool = match self.surface(k) {
                Some(surface) => surface.device == device,
                None => false,
            };
            if ours {
                let ghost before = self@;
                self.fail_surface(k, now);
                assert(self@.surfaces.dom() =~= before.surfaces.dom());
            }
            i = i + 1;
        }
    }

    /// Counts the frames without changes that are due as shown. Gives those frames.
    pub fn retire_software_presentations(&mut self, now: u64) -> (r: Vec<Shown>)
        ensures
            (final(self)@, r@) == old(self)@.software_shown(
                old(self)@.keys(),
                old(self)@.keys().len() as int,
                now,
            ),
    {
        let keys: Vec<u64> = self.surfaces.keys();
        let ghost start = self@;
        let mut list: Vec<Shown> = Vec::new();
        let mut i: usize = 0;
        assert(list@ =~= Seq::empty());
        while i < keys.len()
            invariant
                i <= keys@.len(),
                keys@ == start.keys(),
                keys@.to_set() == start.surfaces.dom(),
                (self@, list@) == start.software_shown(keys@, i as int, now),
                self@.surfaces.dom() == start.surfaces.dom(),
            decreases keys@.len() - i,
        {
            let k: u64 = keys[i];
            assert(keys@.to_set().contains(k));
            assert(self@.surfaces.contains_key(k));
            if let Some(mut surface) = self.surface(k) {
                if let Some(frame) = surface.pending {
                    if !frame.queued && has_come(frame.deadline, now) {
                        let ghost before = self@;
                        surface.pending = None;
                        self.set_surface(k, surface);
                        if let Some(shown) = self.show(k, frame) {
                            list.push(shown);
                        }
                        assert(self@.surfaces.dom() =~= before.surfaces.dom());
                    }
                }
            }
            i = i + 1;
        }
        list
    }

    fn check_fences(&mut self, k: u64, reached: bool, now: u64) -> (r: Option<Prepared>)
        requires
            old(self)@.surfaces.contains_key(k),
        ensures
            (final(self)@, r) == old(self)@.fences_checked(k, reached, now),
    {
        let surface: Surface = match self.surface(k) {
            Some(surface) => surface,
            None => {
                return None;
            },
        };
        let mut prepared: Option<Prepared> = None;
        let mut after: Surface = surface;
        if let Some(fence) = surface.waiting_fence {
            if fence.deadline <= now {
                if reached {
                    after.waiting_fence = None;
                    self.set_surface(k, after);
                    prepared = Some(
                        Prepared {
                            output: OutputId(k as u32),
                            frame_id: fence.frame_id,
                            lock_generation: fence.lock_generation,
                            power_mode: fence.power_mode,
                        },
                    );
                } else if fence.expires_at <= now {
                    after.waiting_fence = None;
                    self.set_surface(k, after);
                    self.retry(k, fence.frame_id, now, surface.retrace);
                } else {
                    let delay: u64 = back_off(fence.delay, surface.retrace);
                    after.waiting_fence = Some(
                        WaitingFence { delay, deadline: now.saturating_add(delay), ..fence },
                    );
                    self.set_surface(k, after);
                }
            }
        }
        if let Some(fence) = surface.exported_fence {
            if fence.deadline <= now {
                after.exported_fence = None;
                self.set_surface(k, after);
                self.retry(k, fence.frame_id, now, surface.retrace);
            }
        }
        prepared
    }

    /// Looks at the fences that are due; `reached` lists the outputs whose fence says that the
    /// drawing is done. Gives the frames whose drawing is done.
    pub fn poll_non_exportable_fences(&mut self, reached: &Vec<OutputId>, now: u64) -> (r: Vec<Prepared>)
        ensures
            (final(self)@, r@) == old(self)@.all_fences_checked(
                old(self)@.keys(),
                old(self)@.keys().len() as int,
                reached@,
                now,
            ),
    {
        let keys: Vec<u64> = self.surfaces.keys();
        let ghost start = self@;
        let mut list: Vec<Prepared> = Vec::new();
        let mut i: usize = 0;
        assert(list@ =~= Seq::empty());
        while i < keys.len()
            invariant
                i <= keys@.len(),
                keys@ == start.keys(),
                keys@.to_set() == start.surfaces.dom(),
                (self@, list@) == start.all_fences_checked(keys@, i as int, reached@, now),
                self@.surfaces.dom() == start.surfaces.dom(),
            decreases keys@.len() - i,
        {
            let k: u64 = keys[i];
            assert(keys@.to_set().contains(k));
            assert(self@.surfaces.contains_key(k));
            let ghost before = self@;
            let done: bool = is_listed(reached, OutputId(k as u32));
            if let Some(frame) = self.check_fences(k, done, now) {
                list.push(frame);
            }
            assert(self@.surfaces.dom() =~= before.surfaces.dom());
            i = i + 1;
        }
        list
    }

    /// Takes in that the drawing of a frame is done. Says whether the frame is still wanted and
    /// is to be handed to the hardware.
    pub fn prepare_frame(&mut self, output: OutputId, frame_id: u64) -> (r: bool)
        ensures
            (final(self)@, r) == old(self)@.prepared(output.0 as u64, frame_id),
    {
        let k: u64 = output.0 as u64;
        let mut surface: Surface = match self.surface(k) {
            Some(surface) => surface,
            None => {
                return false;
            },
        };
        if let Some(fence) = surface.exported_fence {
            if fence.frame_id == frame_id {
                surface.exported_fence = None;
                self.set_surface(k, surface);
            }
        }
        self.scheduler.submitted(output, frame_id)
    }

    /// Takes in whether the hardware took a frame.
    pub fn queue_prepared_frame(&mut self, frame: Prepared, taken: bool, now: u64)
        ensures
            final(self)@ == old(self)@.handed_over(frame, taken, now),
    {
        let k: u64 = frame.output.0 as u64;
        if let Some(mut surface) = self.surface(k) {
            if taken {
                surface.pending = Some(
                    PendingFrame {
                        frame_id: frame.frame_id,
                        queued: true,
                        deadline: None,
                        lock_generation: frame.lock_generation,
                        power_mode: frame.power_mode,
                    },
                );
                self.set_surface(k, surface);
            } else {
                self.retry(k, frame.frame_id, now, surface.retrace);
            }
        }
    }

    /// Takes in what came of drawing a frame. Gives the frame if it is to be handed to the hardware
    /// now.
    pub fn render_output(
        &mut self,
        request: RenderRequest,
        rendered: Rendered,
        lock_generation: Option<u64>,
        now: u64,
    ) -> (r: Option<Prepared>)
        ensures
            (final(self)@, r) == old(self)@.drawn(request, rendered, lock_generation, now),
    {
        let k: u64 = request.output.0 as u64;
        if let Rendered::NoRenderer = rendered {
            self.retry(k, request.frame_id, now, DEFAULT_RETRACE);
            return None;
        }
        let mut surface: Surface = match self.surface(k) {
            Some(surface) => surface,
            None => {
                self.scheduler.remove_output(request.output);
                return None;
            },
        };
        let power_mode: Option<bool> = surface.committing_power_mode;
        let fence: Fence = match rendered {
            Rendered::Drawn(fence) => fence,
            Rendered::Empty => {
                if self.scheduler.submitted(request.output, request.frame_id) {
                    surface.pending = Some(
                        PendingFrame {
                            frame_id: request.frame_id,
                            queued: false,
                            deadline: Some(now.saturating_add(surface.retrace)),
                            lock_generation,
                            power_mode,
                        },
                    );
                    self.set_surface(k, surface);
                }
                return None;
            },
            _ => {
                self.retry(k, request.frame_id, now, surface.retrace);
                return None;
            },
        };
        if fence.needed && fence.composed {
            if let Some(registered) = fence.exported {
                if registered {
                    surface.exported_fence = Some(
                        ExportedFence {
                            frame_id: request.frame_id,
                            deadline: now.saturating_add(FENCE_TIMEOUT),
                        },
                    );
                    self.set_surface(k, surface);
                } else {
                    self.retry(k, request.frame_id, now, surface.retrace);
                }
                return None;
            }
            if !fence.reached {
                surface.waiting_fence = Some(
                    WaitingFence {
                        frame_id: request.frame_id,
                        deadline: now.saturating_add(FENCE_RECHECK_INITIAL),
                        delay: FENCE_RECHECK_INITIAL,
                        expires_at: now.saturating_add(FENCE_TIMEOUT),
                        lock_generation,
                        power_mode,
                    },
                );
                self.set_surface(k, surface);
                return None;
            }
        }
        if self.scheduler.submitted(request.output, request.frame_id) {
            Some(
                Prepared {
                    output: request.output,
                    frame_id: request.frame_id,
                    lock_generation,
                    power_mode,
                },
            )
        } else {
            None
        }
    }
}

} // verus!
