//! Layout transactions on one workspace.
//!
//! A transaction puts a window at its place and then pushes every tiled window that it, or a
//! window pushed before, comes into conflict with. A pushed window moves along the ray from the
//! source through its own centre to the first place that is clear of all the windows whose place
//! is settled. Finding that place on the ray is left to the caller: a layout operation takes
//! the places that were found so far, in the order in which they were asked for, and fails with
//! [`LayoutError::NeedsPosition`] when it needs one more. Since a failed operation leaves the
//! workspace as it was, the caller adds the answer to the list and calls again.

use crate::geometry;
use crate::geometry::{Direction, Point, Rect, Size};
use crate::id_map::IdMap;
use crate::model;
use crate::model::{
    FloatingPlacement, FullscreenPlacement, FullscreenRestorePlacement, MaximizedPlacement,
    RestorePlacement, TiledWindow, WindowId, WindowMode,
};
use crate::push;
use crate::push::push_apart;
use crate::ranking;
use crate::rounding;
use crate::rounding::{halve_away, round_binary64, round_coordinate};
use crate::viewport;
use crate::viewport::{clamp_to_viewport, NormalizedPoint, ViewportPlacement};
use crate::workspace;
use crate::workspace::Workspace;
use vstd::prelude::*;

verus! {

/// What is to be done to the windows of a workspace. An inserted or moved window pushes those at its
/// very centre in the seed direction. The workspace keeps that direction as its hint, normalized:
/// as that is computed with floating-point numbers, the transaction brings the normalized vector
/// along.
#[allow(inconsistent_fields)]
#[derive(Clone, Copy, Debug, Eq, PartialEq, Structural)]
pub enum WindowTransaction {
    InsertTiled {
        id: WindowId,
        size: Size,
        anchor: Point,
        seed_direction: Direction,
        hint: Direction,
    },
    MoveTiledFinished { id: WindowId, target: Point, seed_direction: Direction, hint: Direction },
    MoveFloating { id: WindowId, target: Rect, viewport_size: Size },
    SetMode { id: WindowId, mode: WindowMode, viewport_size: Size },
    Remove { id: WindowId },
}

#[derive(Clone, Copy, Debug, Eq, PartialEq, Structural)]
pub struct Movement {
    pub window: WindowId,
    pub from: Point,
    pub to: Point,
}

#[derive(Debug, Eq, PartialEq)]
pub struct LayoutDelta {
    pub generation: u64,
    pub source: Option<WindowId>,
    pub movements: Vec<Movement>,
}

#[verifier::ext_equal]
pub struct DeltaView {
    pub generation: u64,
    pub source: Option<WindowId>,
    pub movements: Seq<Movement>,
}

impl View for LayoutDelta {
    type V = DeltaView;

    open spec fn view(&self) -> DeltaView {
        DeltaView {
            generation: self.generation,
            source: self.source,
            movements: self.movements@,
        }
    }
}

/// A window that has to move: along the ray from `source_center` to `center`, or along
/// `fallback` where the two are one point, to the first place at which its rectangle keeps
/// `gap` from every obstacle.
#[derive(Debug, Eq, PartialEq)]
pub struct Push {
    pub window: WindowId,
    pub rect: Rect,
    pub source_center: Point,
    pub center: Point,
    pub fallback: Direction,
    pub gap: i64,
    pub obstacles: Vec<Rect>,
}

#[verifier::ext_equal]
pub struct PushView {
    pub window: WindowId,
    pub rect: Rect,
    pub source_center: Point,
    pub center: Point,
    pub fallback: Direction,
    pub gap: i64,
    pub obstacles: Seq<Rect>,
}

impl View for Push {
    type V = PushView;

    open spec fn view(&self) -> PushView {
        PushView {
            window: self.window,
            rect: self.rect,
            source_center: self.source_center,
            center: self.center,
            fallback: self.fallback,
            gap: self.gap,
            obstacles: self.obstacles@,
        }
    }
}

#[derive(Debug, Eq, PartialEq)]
pub enum LayoutError {
    DuplicateWindow(WindowId),
    UnknownWindow(WindowId),
    InvalidSize,
    FullscreenOccupied(WindowId),
    MaximizedOccupied(WindowId),
    DidNotConverge(usize),
    UnstableResult,
    /// The place of a pushed window is not among the answers yet.
    NeedsPosition(Push),
}

#[verifier::ext_equal]
pub enum LayoutFault {
    DuplicateWindow(WindowId),
    UnknownWindow(WindowId),
    InvalidSize,
    FullscreenOccupied(WindowId),
    MaximizedOccupied(WindowId),
    DidNotConverge(int),
    UnstableResult,
    NeedsPosition(PushView),
}

impl View for LayoutError {
    type V = LayoutFault;

    open spec fn view(&self) -> LayoutFault {
        match self {
            LayoutError::DuplicateWindow(id) => LayoutFault::DuplicateWindow(*id),
            LayoutError::UnknownWindow(id) => LayoutFault::UnknownWindow(*id),
            LayoutError::InvalidSize => LayoutFault::InvalidSize,
            LayoutError::FullscreenOccupied(id) => LayoutFault::FullscreenOccupied(*id),
            LayoutError::MaximizedOccupied(id) => LayoutFault::MaximizedOccupied(*id),
            LayoutError::DidNotConverge(n) => LayoutFault::DidNotConverge(*n as int),
            LayoutError::UnstableResult => LayoutFault::UnstableResult,
            LayoutError::NeedsPosition(push) => LayoutFault::NeedsPosition(push@),
        }
    }
}

/// The solver of radial layouts.
#[derive(Clone, Copy, Debug)]
pub struct RadialSolver {
    gap: i64,
    snap_distance: i64,
    operation_limit: usize,
}

#[verifier::ext_equal]
pub struct SolverView {
    /// How far apart tiled windows stay.
    pub gap: i64,
    /// From how far away an edge draws a dragged window.
    pub snap_distance: i64,
    /// How many windows one operation may push.
    pub operation_limit: usize,
}

impl View for RadialSolver {
    type V = SolverView;

    closed spec fn view(&self) -> SolverView {
        SolverView {
            gap: self.gap,
            snap_distance: self.snap_distance,
            operation_limit: self.operation_limit,
        }
    }
}

impl RadialSolver {
    #[verifier::type_invariant]
    spec fn sound(self) -> bool {
        self.gap >= 0 && self.snap_distance >= 0 && self.operation_limit >= 1
    }

    pub fn new(gap: i64) -> (r: Self)
        ensures
            r@ == SolverView::with_gap(gap),
    {
        RadialSolver {
            gap: if gap > 0 {
                gap
            } else {
                0
            },
            snap_distance: 24,
            operation_limit: 16_384,
        }
    }

    pub fn with_operation_limit(self, limit: usize) -> (r: Self)
        ensures
            r@ == (SolverView {
                operation_limit: if limit > 1 {
                    limit
                } else {
                    1
                },
                ..self@
            }),
    {
        proof {
            use_type_invariant(&self);
        }
        RadialSolver {
            gap: self.gap,
            snap_distance: self.snap_distance,
            operation_limit: if limit > 1 {
                limit
            } else {
                1
            },
        }
    }

    pub fn with_snap_distance(self, distance: i64) -> (r: Self)
        ensures
            r@ == (SolverView {
                snap_distance: if distance > 0 {
                    distance
                } else {
                    0
                },
                ..self@
            }),
    {
        proof {
            use_type_invariant(&self);
        }
        RadialSolver {
            gap: self.gap,
            snap_distance: if distance > 0 {
                distance
            } else {
                0
            },
            operation_limit: self.operation_limit,
        }
    }

    pub fn gap(&self) -> (r: i64)
        ensures
            r == self@.gap,
            r >= 0,
    {
        proof {
            use_type_invariant(self);
        }
        self.gap
    }
}

impl SolverView {
    pub open spec fn with_gap(gap: i64) -> Self {
        SolverView {
            gap: if gap > 0 {
                gap
            } else {
                0
            },
            snap_distance: 24,
            operation_limit: 16_384,
        }
    }
}

/// Start and length of a rectangle on the horizontal or the vertical axis.
pub open spec fn span(rect: Rect, horizontal: bool) -> (int, int) {
    if horizontal {
        (rect.origin.x as int, rect.size.width as int)
    } else {
        (rect.origin.y as int, rect.size.height as int)
    }
}

pub open spec fn distance(a: int, b: int) -> int {
    if a < b {
        b - a
    } else {
        a - b
    }
}

impl SolverView {
    /// Whether a dragged rectangle can snap to `value` on an axis: there it touches, but for
    /// the gap, an edge of the window `other` that it passes on the other axis, and it has no
    /// farther to go than the snap distance.
    pub open spec fn snaps_to(
        self,
        tiled: Map<u64, TiledWindow>,
        id: u64,
        rect: Rect,
        horizontal: bool,
        other: u64,
        value: int,
    ) -> bool {
        let (start, length) = span(rect, horizontal);
        let (cross_start, cross_length) = span(rect, !horizontal);
        let (other_start, other_length) = span(tiled[other].geometry, horizontal);
        let (other_cross_start, other_cross_length) = span(tiled[other].geometry, !horizontal);
        &&& tiled.contains_key(other)
        &&& other != id
        &&& cross_start < other_cross_start + other_cross_length
        &&& other_cross_start < cross_start + cross_length
        &&& value == other_start - length - self.gap || value == other_start + other_length
            + self.gap
        &&& distance(value, start) <= self.snap_distance
        &&& i64::MIN <= value <= i64::MAX
    }

    /// Whether `value` at the window `other` is the first choice to snap to: the nearest, of
    /// equally near ones that of the smaller id, of these the smaller coordinate.
    pub open spec fn snaps_best(
        self,
        tiled: Map<u64, TiledWindow>,
        id: u64,
        rect: Rect,
        horizontal: bool,
        other: u64,
        value: int,
    ) -> bool {
        let start = span(rect, horizontal).0;
        &&& self.snaps_to(tiled, id, rect, horizontal, other, value)
        &&& forall|o: u64, v: int| #[trigger]
            self.snaps_to(tiled, id, rect, horizontal, o, v) ==> !precedes(
                start,
                o,
                v,
                other,
                value,
            )
    }

    /// Where a dragged rectangle ends on an axis.
    pub open spec fn snapped_axis(
        self,
        tiled: Map<u64, TiledWindow>,
        id: u64,
        rect: Rect,
        horizontal: bool,
    ) -> int {
        if exists|o: u64, v: int| self.snaps_best(tiled, id, rect, horizontal, o, v) {
            (choose|o: u64, v: int| self.snaps_best(tiled, id, rect, horizontal, o, v)).1
        } else {
            span(rect, horizontal).0
        }
    }

    /// Where a dragged rectangle ends.
    pub open spec fn snapped(self, tiled: Map<u64, TiledWindow>, id: u64, rect: Rect) -> Rect {
        rect.moved_to(
            Point {
                x: self.snapped_axis(tiled, id, rect, true) as i64,
                y: self.snapped_axis(tiled, id, rect, false) as i64,
            },
        )
    }
}

/// Whether to snap to `v` at the window `o` is a better choice than to snap to `value` at the
/// window `other`.
pub open spec fn precedes(start: int, o: u64, v: int, other: u64, value: int) -> bool {
    let d = distance(v, start);
    let e = distance(value, start);
    d < e || (d == e && (o < other || (o == other && v < value)))
}

impl RadialSolver {
    /// Takes `value` at the window `other` for the best choice if it is a better one.
    fn consider(&self, best: Option<(u64, i64)>, start: i64, other: u64, value: i128) -> (r: Option<
        (u64, i64),
    >)
        ensures
            ({
                let fits = distance(value as int, start as int) <= self@.snap_distance && i64::MIN
                    <= value <= i64::MAX;
                let better = match best {
                    Some((o, v)) => precedes(start as int, other, value as int, o, v as int),
                    None => true,
                };
                r == if fits && better {
                    Some((other, value as i64))
                } else {
                    best
                }
            }),
    {
        if value < i64::MIN as i128 || value > i64::MAX as i128 {
            return best;
        }
        let d: i128 = if value < start as i128 {
            start as i128 - value
        } else {
            value - start as i128
        };
        if d > self.snap_distance as i128 {
            return best;
        }
        match best {
            None => Some((other, value as i64)),
            Some((o, v)) => {
                let e: i128 = if v < start {
                    start as i128 - v as i128
                } else {
                    v as i128 - start as i128
                };
                if d < e || (d == e && (other < o || (other == o && value < v as i128))) {
                    Some((other, value as i64))
                } else {
                    best
                }
            },
        }
    }

    fn snap_axis(
        &self,
        tiled: &IdMap<TiledWindow>,
        ids: &Vec<u64>,
        id: u64,
        rect: Rect,
        horizontal: bool,
    ) -> (r: i64)
        requires
            ids@.to_set() == tiled@.dom(),
        ensures
            r == self@.snapped_axis(tiled@, id, rect, horizontal),
    {
        let (start, length, cross_start, cross_length): (i64, i64, i64, i64) = if horizontal {
            (rect.origin.x, rect.size.width, rect.origin.y, rect.size.height)
        } else {
            (rect.origin.y, rect.size.height, rect.origin.x, rect.size.width)
        };
        let mut best: Option<(u64, i64)> = None;
        let mut i: usize = 0;
        while i < ids.len()
            invariant
                i <= ids@.len(),
                ids@.to_set() == tiled@.dom(),
                start == span(rect, horizontal).0,
                length == span(rect, horizontal).1,
                cross_start == span(rect, !horizontal).0,
                cross_length == span(rect, !horizontal).1,
                match best {
                    Some((o, v)) => self@.snaps_to(tiled@, id, rect, horizontal, o, v as int),
                    None => true,
                },
                forall|o: u64, v: int|
                    ids@.take(i as int).contains(o) && #[trigger] self@.snaps_to(
                        tiled@,
                        id,
                        rect,
                        horizontal,
                        o,
                        v,
                    ) ==> match best {
                        Some((b, w)) => !precedes(start as int, o, v, b, w as int),
                        None => false,
                    },
            decreases ids@.len() - i,
        {
            let other: u64 = ids[i];
            proof {
                assert(ids@.to_set().contains(ids@[i as int]));
                let next = ids@.take(i + 1);
                assert forall|o: u64| next.contains(o) implies ids@.take(i as int).contains(o) || o
                    == other by {
                    let k = choose|k: int| 0 <= k < next.len() && next[k] == o;
                    if k < i {
                        assert(ids@.take(i as int)[k] == o);
                    }
                }
            }
            if other != id {
                match tiled.get(other) {
                    Some(window) => {
                        let g: Rect = window.geometry;
                        let (s, l, cs, cl): (i64, i64, i64, i64) = if horizontal {
                            (g.origin.x, g.size.width, g.origin.y, g.size.height)
                        } else {
                            (g.origin.y, g.size.height, g.origin.x, g.size.width)
                        };
                        if (cross_start as i128) < cs as i128 + cl as i128 && (cs as i128)
                            < cross_start as i128 + cross_length as i128 {
                            let before: i128 = s as i128 - length as i128 - self.gap as i128;
                            let after: i128 = s as i128 + l as i128 + self.gap as i128;
                            best = self.consider(best, start, other, before);
                            best = self.consider(best, start, other, after);
                        }
                    },
                    None => {},
                }
            }
            i = i + 1;
        }
        proof {
            assert(ids@.take(i as int) =~= ids@);
            assert forall|o: u64, v: int| #[trigger]
                self@.snaps_to(tiled@, id, rect, horizontal, o, v) implies ids@.contains(o) by {
                assert(ids@.to_set().contains(o));
            }
            match best {
                Some((b, w)) => {
                    assert(self@.snaps_best(tiled@, id, rect, horizontal, b, w as int));
                    let (o, v) = choose|o: u64, v: int|
                        self@.snaps_best(tiled@, id, rect, horizontal, o, v);
                    assert(self@.snaps_best(tiled@, id, rect, horizontal, o, v));
                    assert(!precedes(start as int, o, v, b, w as int));
                    assert(!precedes(start as int, b, w as int, o, v));
                    assert(v == w);
                },
                None => {
                    assert forall|o: u64, v: int|
                        !#[trigger] self@.snaps_best(tiled@, id, rect, horizontal, o, v) by {
                        if self@.snaps_to(tiled@, id, rect, horizontal, o, v) {
                            assert(ids@.contains(o));
                        }
                    }
                },
            }
        }
        match best {
            Some((_, v)) => v,
            None => start,
        }
    }

    fn snap_target(&self, workspace: &Workspace, id: WindowId, rect: Rect) -> (r: Rect)
        ensures
            r == self@.snapped(workspace@.tiled, id.0, rect),
    {
        let ids: Vec<u64> = workspace.tiled.keys();
        let x: i64 = self.snap_axis(&workspace.tiled, &ids, id.0, rect, true);
        let y: i64 = self.snap_axis(&workspace.tiled, &ids, id.0, rect, false);
        rect.translated(x, y)
    }
}

/// One coordinate of the canvas as the viewport around the camera shows it, in binary64
/// numbers.
pub open spec fn seen_axis(at: int, camera: int, extent: int) -> int {
    let edge = rounding::binary64(2 * rounding::binary64(camera) - rounding::binary64(extent));
    geometry::saturated(
        rounding::half_away(rounding::binary64(2 * rounding::binary64(at) - edge)),
    )
}

/// The coordinate of the canvas that the viewport around the camera shows at `at`, in binary64
/// numbers.
pub open spec fn unseen_axis(at: int, camera: int, extent: int) -> int {
    let edge = rounding::binary64(2 * rounding::binary64(camera) - rounding::binary64(extent));
    geometry::saturated(
        rounding::half_away(rounding::binary64(edge + 2 * rounding::binary64(at))),
    )
}

/// A rectangle of the canvas as the viewport around the camera shows it.
pub open spec fn to_viewport(rect: Rect, camera: Point, viewport: Size) -> Rect {
    rect.moved_to(
        Point {
            x: seen_axis(rect.origin.x as int, camera.x as int, viewport.width as int) as i64,
            y: seen_axis(rect.origin.y as int, camera.y as int, viewport.height as int) as i64,
        },
    )
}

/// The rectangle of the canvas that the viewport around the camera shows as `rect`.
pub open spec fn to_world(rect: Rect, camera: Point, viewport: Size) -> Rect {
    rect.moved_to(
        Point {
            x: unseen_axis(rect.origin.x as int, camera.x as int, viewport.width as int) as i64,
            y: unseen_axis(rect.origin.y as int, camera.y as int, viewport.height as int) as i64,
        },
    )
}

fn see_axis(at: i64, camera: i64, extent: i64) -> (r: i64)
    ensures
        r == seen_axis(at as int, camera as int, extent as int),
{
    let edge: i128 = round_binary64(2 * round_coordinate(camera) - round_coordinate(extent));
    halve_away(round_binary64(2 * round_coordinate(at) - edge))
}

fn unsee_axis(at: i64, camera: i64, extent: i64) -> (r: i64)
    ensures
        r == unseen_axis(at as int, camera as int, extent as int),
{
    let edge: i128 = round_binary64(2 * round_coordinate(camera) - round_coordinate(extent));
    halve_away(round_binary64(edge + 2 * round_coordinate(at)))
}

pub fn world_rect_to_viewport(rect: Rect, camera: Point, viewport: Size) -> (r: Rect)
    ensures
        r == to_viewport(rect, camera, viewport),
{
    let x: i64 = see_axis(rect.origin.x, camera.x, viewport.width);
    let y: i64 = see_axis(rect.origin.y, camera.y, viewport.height);
    rect.translated(x, y)
}

pub fn viewport_rect_to_world(rect: Rect, camera: Point, viewport: Size) -> (r: Rect)
    ensures
        r == to_world(rect, camera, viewport),
{
    let x: i64 = unsee_axis(rect.origin.x, camera.x, viewport.width);
    let y: i64 = unsee_axis(rect.origin.y, camera.y, viewport.height);
    rect.translated(x, y)
}

/// A movement in its place in a list that is ordered by window. A window that is listed keeps
/// the movement that it has there.
pub open spec fn arranged_with(list: Seq<Movement>, movement: Movement) -> Seq<Movement>
    decreases list.len(),
{
    if list.len() == 0 {
        seq![movement]
    } else if list.last().window == movement.window {
        list
    } else if list.last().window.0 < movement.window.0 {
        list.push(movement)
    } else {
        arranged_with(list.drop_last(), movement).push(list.last())
    }
}

/// The movements in the order of their windows, the first of each window.
pub open spec fn arranged(movements: Seq<Movement>) -> Seq<Movement>
    decreases movements.len(),
{
    if movements.len() == 0 {
        movements
    } else {
        arranged_with(arranged(movements.drop_last()), movements.last())
    }
}

/// The generation that follows another.
pub open spec fn next_generation(generation: u64) -> u64 {
    if generation == u64::MAX {
        0
    } else {
        (generation + 1) as u64
    }
}

/// A workspace on which a transaction has been carried out but for the pushing: the window to
/// push from, if any, the direction for windows at its very centre, and the movements so far.
#[verifier::ext_equal]
pub struct PreparedView {
    pub workspace: workspace::WorkspaceView,
    pub source: Option<WindowId>,
    pub seed: Direction,
    pub movements: Seq<Movement>,
}

impl workspace::WorkspaceView {
    /// What a window of the workspace returns to once it is neither fullscreen nor maximized:
    /// the place that it has, if it is tiled or floating.
    pub open spec fn base_of(self, id: WindowId) -> model::RestoreView {
        match self.mode_of(id) {
            Some(WindowMode::Tiled) => model::RestoreView::Tiled {
                world_rect: self.tiled[id.0].geometry,
            },
            Some(WindowMode::Floating) => model::RestoreView::Floating {
                viewport: self.floating[id.0].viewport,
            },
            Some(WindowMode::Maximized) => self.maximized->0.restore,
            _ => self.fullscreen->0.restore.base(),
        }
    }

    /// The workspace without a window, its focus unchanged.
    pub open spec fn lifted(self, id: WindowId) -> Self {
        match self.mode_of(id) {
            Some(WindowMode::Tiled) => workspace::WorkspaceView {
                tiled: self.tiled.remove(id.0),
                ..self
            },
            Some(WindowMode::Floating) => workspace::WorkspaceView {
                floating: self.floating.remove(id.0),
                ..self
            },
            Some(WindowMode::Maximized) => workspace::WorkspaceView { maximized: None, ..self },
            Some(WindowMode::Fullscreen) => workspace::WorkspaceView { fullscreen: None, ..self },
            None => self,
        }
    }

    /// The workspace with a tiled window put at a place.
    pub open spec fn with_tiled(self, id: WindowId, geometry: Rect) -> Self {
        workspace::WorkspaceView {
            tiled: self.tiled.insert(id.0, TiledWindow { id, geometry }),
            ..self
        }
    }

    pub open spec fn with_floating(self, id: WindowId, viewport: viewport::ViewportView) -> Self {
        workspace::WorkspaceView {
            floating: self.floating.insert(id.0, model::FloatingView { window: id, viewport }),
            ..self
        }
    }

    /// The viewport place that a window has when it becomes floating: the one it returns to, or
    /// one where the camera shows its place on the canvas.
    pub open spec fn floating_place(self, id: WindowId, viewport_size: Size) -> viewport::ViewportView {
        match self.base_of(id) {
            model::RestoreView::Floating { viewport } => viewport,
            model::RestoreView::Tiled { world_rect } => viewport::ViewportView::fresh(
                viewport::clamped_rect(
                    to_viewport(world_rect, self.camera.center, viewport_size),
                    viewport_size,
                ),
                viewport_size,
            ),
        }
    }

    /// The place on the canvas that a window has when it becomes tiled.
    pub open spec fn tiled_place(self, id: WindowId, viewport_size: Size) -> Rect {
        match self.base_of(id) {
            model::RestoreView::Tiled { world_rect } => world_rect,
            model::RestoreView::Floating { viewport } => to_world(
                viewport.rect,
                self.camera.center,
                viewport_size,
            ),
        }
    }

    /// What a window remembers when it becomes fullscreen.
    pub open spec fn fullscreen_restore(self, id: WindowId) -> model::FullscreenRestoreView {
        match self.mode_of(id) {
            Some(WindowMode::Tiled) => model::FullscreenRestoreView::Tiled {
                world_rect: self.tiled[id.0].geometry,
            },
            Some(WindowMode::Floating) => model::FullscreenRestoreView::Floating {
                viewport: self.floating[id.0].viewport,
            },
            _ => model::FullscreenRestoreView::Maximized { restore: self.maximized->0.restore },
        }
    }

    /// The workspace with a window in another mode, and whether the window then pushes others.
    pub open spec fn with_mode(self, id: WindowId, mode: WindowMode, viewport_size: Size) -> Result<
        (Self, bool),
        LayoutFault,
    > {
        match self.mode_of(id) {
            None => Err(LayoutFault::UnknownWindow(id)),
            Some(current) => if current == mode {
                Ok((self, false))
            } else {
                match mode {
                    WindowMode::Fullscreen => match self.fullscreen {
                        Some(other) => Err(LayoutFault::FullscreenOccupied(other.window)),
                        None => Ok(
                            (
                                (workspace::WorkspaceView {
                                    fullscreen: Some(
                                        model::FullscreenView {
                                            window: id,
                                            restore: self.fullscreen_restore(id),
                                        },
                                    ),
                                    ..self.lifted(id)
                                }).focused(id),
                                false,
                            ),
                        ),
                    },
                    WindowMode::Maximized => match self.maximized {
                        Some(other) => Err(LayoutFault::MaximizedOccupied(other.window)),
                        None => Ok(
                            (
                                (workspace::WorkspaceView {
                                    maximized: Some(
                                        model::MaximizedView {
                                            window: id,
                                            restore: self.base_of(id),
                                        },
                                    ),
                                    ..self.lifted(id)
                                }).focused(id),
                                false,
                            ),
                        ),
                    },
                    WindowMode::Tiled => Ok(
                        (
                            self.lifted(id).with_tiled(
                                id,
                                self.tiled_place(id, viewport_size),
                            ).focused(id),
                            true,
                        ),
                    ),
                    WindowMode::Floating => Ok(
                        (
                            self.lifted(id).with_floating(
                                id,
                                self.floating_place(id, viewport_size),
                            ).focused(id),
                            false,
                        ),
                    ),
                }
            },
        }
    }
}

impl SolverView {
    /// The workspace with a transaction carried out but for the pushing.
    pub open spec fn prepared(self, ws: workspace::WorkspaceView, transaction: WindowTransaction) -> Result<
        PreparedView,
        LayoutFault,
    > {
        match transaction {
            WindowTransaction::InsertTiled { id, size, anchor, seed_direction, hint } => {
                if !size.valid() {
                    Err(LayoutFault::InvalidSize)
                } else if ws.has(id) {
                    Err(LayoutFault::DuplicateWindow(id))
                } else {
                    Ok(
                        PreparedView {
                            workspace: (workspace::WorkspaceView {
                                layout_direction_hint: hint,
                                ..ws.with_tiled(id, Rect::around(anchor, size))
                            }).focused(id),
                            source: Some(id),
                            seed: seed_direction,
                            movements: Seq::empty(),
                        },
                    )
                }
            },
            WindowTransaction::MoveTiledFinished { id, target, seed_direction, hint } => {
                if !ws.tiled.contains_key(id.0) {
                    Err(LayoutFault::UnknownWindow(id))
                } else {
                    let from = ws.tiled[id.0].geometry;
                    let to = self.snapped(ws.tiled, id.0, from.moved_to(target));
                    Ok(
                        PreparedView {
                            workspace: (workspace::WorkspaceView {
                                layout_direction_hint: hint,
                                tiled: ws.tiled.insert(
                                    id.0,
                                    TiledWindow { geometry: to, ..ws.tiled[id.0] },
                                ),
                                ..ws
                            }).focused(id),
                            source: Some(id),
                            seed: seed_direction,
                            movements: seq![
                                Movement { window: id, from: from.origin, to: to.origin },
                            ],
                        },
                    )
                }
            },
            WindowTransaction::MoveFloating { id, target, viewport_size } => {
                if !ws.floating.contains_key(id.0) {
                    Err(LayoutFault::UnknownWindow(id))
                } else {
                    let placement = ws.floating[id.0];
                    let to = viewport::clamped_rect(target, viewport_size);
                    Ok(
                        PreparedView {
                            workspace: (workspace::WorkspaceView {
                                floating: ws.floating.insert(
                                    id.0,
                                    model::FloatingView {
                                        window: placement.window,
                                        viewport: viewport::ViewportView {
                                            rect: to,
                                            normalized_center: NormalizedPoint::of_rect(
                                                to,
                                                viewport_size,
                                            ),
                                            output_rects: placement.viewport.output_rects,
                                        },
                                    },
                                ),
                                ..ws
                            }).focused(id),
                            source: None,
                            seed: ws.layout_direction_hint,
                            movements: seq![
                                Movement {
                                    window: id,
                                    from: placement.viewport.rect.origin,
                                    to: to.origin,
                                },
                            ],
                        },
                    )
                }
            },
            WindowTransaction::SetMode { id, mode, viewport_size } => match ws.with_mode(
                id,
                mode,
                viewport_size,
            ) {
                Err(fault) => Err(fault),
                Ok((after, pushes)) => Ok(
                    PreparedView {
                        workspace: after,
                        source: if pushes {
                            Some(id)
                        } else {
                            None
                        },
                        seed: ws.layout_direction_hint,
                        movements: Seq::empty(),
                    },
                ),
            },
            WindowTransaction::Remove { id } => {
                if !ws.has(id) {
                    Err(LayoutFault::UnknownWindow(id))
                } else {
                    Ok(
                        PreparedView {
                            workspace: ws.lifted(id).unfocused(id),
                            source: None,
                            seed: ws.layout_direction_hint,
                            movements: Seq::empty(),
                        },
                    )
                }
            },
        }
    }

    /// The prepared workspace with the windows pushed apart, and the movements.
    pub open spec fn pushed(self, prepared: PreparedView, answers: Seq<Option<Point>>) -> Result<
        (workspace::WorkspaceView, Seq<Movement>),
        LayoutFault,
    > {
        match prepared.source {
            None => Ok((prepared.workspace, prepared.movements)),
            Some(source) => match push::pushed_apart(
                self.gap,
                self.operation_limit,
                prepared.workspace.tiled,
                source,
                prepared.seed,
                answers,
                0,
            ) {
                push::Pushed::Failed(fault) => Err(fault),
                push::Pushed::Settled { tiled, movements, .. } => Ok(
                    (
                        workspace::WorkspaceView { tiled, ..prepared.workspace },
                        prepared.movements + movements,
                    ),
                ),
            },
        }
    }

    /// The workspace after a transaction, and what has changed.
    pub open spec fn applied(
        self,
        ws: workspace::WorkspaceView,
        transaction: WindowTransaction,
        answers: Seq<Option<Point>>,
    ) -> Result<(workspace::WorkspaceView, DeltaView), LayoutFault> {
        match self.prepared(ws, transaction) {
            Err(fault) => Err(fault),
            Ok(prepared) => match self.pushed(prepared, answers) {
                Err(fault) => Err(fault),
                Ok((after, movements)) => if !after.stable(self.gap as int) {
                    Err(LayoutFault::UnstableResult)
                } else {
                    let generation = next_generation(ws.generation);
                    Ok(
                        (
                            workspace::WorkspaceView { generation, ..after },
                            DeltaView {
                                generation,
                                source: prepared.source,
                                movements: arranged(movements),
                            },
                        ),
                    )
                },
            },
        }
    }

    /// The windows after each of `ids`, from the place `i` on, has pushed the others away, and
    /// how many answers are then used.
    pub open spec fn pushed_in_turn(
        self,
        tiled: Map<u64, TiledWindow>,
        ids: Seq<u64>,
        i: int,
        seed: Direction,
        answers: Seq<Option<Point>>,
        used: nat,
    ) -> Result<(Map<u64, TiledWindow>, nat), LayoutFault>
        decreases ids.len() - i,
    {
        if i >= ids.len() {
            Ok((tiled, used))
        } else {
            match push::pushed_apart(
                self.gap,
                self.operation_limit,
                tiled,
                WindowId(ids[i]),
                seed,
                answers,
                used,
            ) {
                push::Pushed::Failed(fault) => Err(fault),
                push::Pushed::Settled { tiled: after, used: count, .. } => self.pushed_in_turn(
                    after,
                    ids,
                    i + 1,
                    seed,
                    answers,
                    count,
                ),
            }
        }
    }

    /// The workspace after a new layout of all its tiled windows, and how many answers are then
    /// used.
    pub open spec fn reflowed(
        self,
        ws: workspace::WorkspaceView,
        answers: Seq<Option<Point>>,
        used: nat,
    ) -> Result<(workspace::WorkspaceView, nat), LayoutFault> {
        match self.pushed_in_turn(
            ws.tiled,
            ranking::ascending(ws.tiled.dom()),
            0,
            ws.layout_direction_hint,
            answers,
            used,
        ) {
            Err(fault) => Err(fault),
            Ok((tiled, count)) => if !workspace::tiles_stable(tiled, self.gap as int) {
                Err(LayoutFault::UnstableResult)
            } else {
                Ok(
                    (
                        workspace::WorkspaceView {
                            tiled,
                            generation: next_generation(ws.generation),
                            ..ws
                        },
                        count,
                    ),
                )
            },
        }
    }
}

/// Takes a window of the workspace from its place, and returns what it goes back to.
fn lift(ws: &mut Workspace, id: WindowId) -> (r: Option<RestorePlacement>)
    ensures
        final(ws)@ == old(ws)@.lifted(id),
        match r {
            Some(restore) => old(ws)@.has(id) && restore@ == old(ws)@.base_of(id),
            None => !old(ws)@.has(id),
        },
{
    match ws.tiled.remove(id.0) {
        Some(window) => {
            return Some(RestorePlacement::Tiled { world_rect: window.geometry });
        },
        None => {
            assert(ws.tiled@ =~= old(ws)@.tiled);
        },
    }
    match ws.floating.remove(id.0) {
        Some(placement) => {
            return Some(RestorePlacement::Floating { viewport: placement.viewport });
        },
        None => {
            assert(ws.floating@ =~= old(ws)@.floating);
        },
    }
    let maximized: bool = match &ws.maximized {
        Some(maximized) => maximized.window == id,
        None => false,
    };
    if maximized {
        return match ws.maximized.take() {
            Some(maximized) => Some(maximized.restore),
            None => None,
        };
    }
    let fullscreen: bool = match &ws.fullscreen {
        Some(fullscreen) => fullscreen.window == id,
        None => false,
    };
    if fullscreen {
        return match ws.fullscreen.take() {
            Some(fullscreen) => Some(fullscreen.restore.into_base()),
            None => None,
        };
    }
    None
}

/// Adds a movement to a list that is ordered by window, unless the window is listed.
fn arrange(list: &mut Vec<Movement>, movement: Movement)
    ensures
        final(list)@ == arranged_with(old(list)@, movement),
{
    let ghost before = list@;
    let mut place: usize = list.len();
    let ghost tail = Seq::<Movement>::empty();
    assert(before.take(place as int) =~= before);
    assert(before.skip(place as int) =~= Seq::empty());
    assert(arranged_with(before, movement) =~= arranged_with(before.take(place as int), movement)
        + before.skip(place as int));
    while place > 0 && list[place - 1].window.0 > movement.window.0
        invariant
            place <= before.len(),
            list@ == before,
            arranged_with(before, movement) == arranged_with(before.take(place as int), movement)
                + before.skip(place as int),
        decreases place,
    {
        proof {
            let head = before.take(place as int);
            assert(head.drop_last() =~= before.take(place - 1));
            assert(head.last() == before[place - 1]);
            assert(arranged_with(head, movement) == arranged_with(
                before.take(place - 1),
                movement,
            ).push(head.last()));
            assert(arranged_with(before.take(place - 1), movement).push(head.last())
                + before.skip(place as int) =~= arranged_with(before.take(place - 1), movement)
                + before.skip(place - 1));
        }
        place = place - 1;
    }
    if place > 0 && list[place - 1].window.0 == movement.window.0 {
        proof {
            let head = before.take(place as int);
            assert(head.last() == before[place - 1]);
            assert(head.last().window == movement.window);
            assert(head + before.skip(place as int) =~= before);
        }
        return;
    }
    list.insert(place, movement);
    proof {
        let head = before.take(place as int);
        if place > 0 {
            assert(head.last() == before[place - 1]);
        }
        assert(arranged_with(head, movement) =~= head.push(movement));
        assert(list@ =~= head.push(movement) + before.skip(place as int));
    }
}

fn arrange_all(movements: &Vec<Movement>) -> (r: Vec<Movement>)
    ensures
        r@ == arranged(movements@),
{
    let mut r: Vec<Movement> = Vec::new();
    let mut i: usize = 0;
    assert(movements@.take(0) =~= Seq::empty());
    while i < movements.len()
        invariant
            i <= movements@.len(),
            r@ == arranged(movements@.take(i as int)),
        decreases movements@.len() - i,
    {
        proof {
            assert(movements@.take(i + 1).drop_last() =~= movements@.take(i as int));
        }
        arrange(&mut r, movements[i]);
        i = i + 1;
    }
    assert(movements@.take(i as int) =~= movements@);
    r
}

/// Puts a window of the workspace into another mode, and returns whether it then pushes others.
fn set_mode(ws: &mut Workspace, id: WindowId, mode: WindowMode, viewport_size: Size) -> (r: Result<
    bool,
    LayoutError,
>)
    ensures
        match old(ws)@.with_mode(id, mode, viewport_size) {
            Ok((after, pushes)) => r is Ok && r->Ok_0 == pushes && final(ws)@ == after,
            Err(fault) => r is Err && r->Err_0@ == fault,
        },
{
    let current: WindowMode = match ws.window_mode(id) {
        Some(current) => current,
        None => {
            return Err(LayoutError::UnknownWindow(id));
        },
    };
    if current == mode {
        return Ok(false);
    }
    match mode {
        WindowMode::Fullscreen => {
            match &ws.fullscreen {
                Some(other) => {
                    return Err(LayoutError::FullscreenOccupied(other.window));
                },
                None => {},
            }
        },
        WindowMode::Maximized => {
            match &ws.maximized {
                Some(other) => {
                    return Err(LayoutError::MaximizedOccupied(other.window));
                },
                None => {},
            }
        },
        _ => {},
    }
    let camera: Point = ws.camera.center;
    let base: RestorePlacement = match lift(ws, id) {
        Some(base) => base,
        None => {
            return Err(LayoutError::UnknownWindow(id));
        },
    };
    let pushes: bool = match mode {
        WindowMode::Fullscreen => {
            let restore: FullscreenRestorePlacement = if current == WindowMode::Maximized {
                FullscreenRestorePlacement::Maximized { restore: base }
            } else {
                match base {
                    RestorePlacement::Tiled { world_rect } => FullscreenRestorePlacement::Tiled {
                        world_rect,
                    },
                    RestorePlacement::Floating { viewport } =>
                        FullscreenRestorePlacement::Floating { viewport },
                }
            };
            ws.fullscreen = Some(FullscreenPlacement { window: id, restore });
            false
        },
        WindowMode::Maximized => {
            ws.maximized = Some(MaximizedPlacement { window: id, restore: base });
            false
        },
        WindowMode::Tiled => {
            let geometry: Rect = match base {
                RestorePlacement::Tiled { world_rect } => world_rect,
                RestorePlacement::Floating { viewport } => viewport_rect_to_world(
                    viewport.rect,
                    camera,
                    viewport_size,
                ),
            };
            ws.tiled.insert(id.0, TiledWindow { id, geometry });
            true
        },
        WindowMode::Floating => {
            let viewport: ViewportPlacement = match base {
                RestorePlacement::Floating { viewport } => viewport,
                RestorePlacement::Tiled { world_rect } => ViewportPlacement::new(
                    clamp_to_viewport(
                        world_rect_to_viewport(world_rect, camera, viewport_size),
                        viewport_size,
                    ),
                    viewport_size,
                ),
            };
            ws.floating.insert(id.0, FloatingPlacement { window: id, viewport });
            false
        },
    };
    ws.focus(id);
    Ok(pushes)
}

/// A transaction carried out but for the pushing.
struct Prepared {
    source: Option<WindowId>,
    seed: Direction,
    movements: Vec<Movement>,
}

impl RadialSolver {
    fn apply_to_working(&self, ws: &mut Workspace, transaction: WindowTransaction) -> (r: Result<
        Prepared,
        LayoutError,
    >)
        ensures
            match self@.prepared(old(ws)@, transaction) {
                Ok(prepared) => r is Ok && final(ws)@ == prepared.workspace && r->Ok_0.source
                    == prepared.source && r->Ok_0.seed == prepared.seed && r->Ok_0.movements@
                    == prepared.movements,
                Err(fault) => r is Err && r->Err_0@ == fault,
            },
    {
        let mut movements: Vec<Movement> = Vec::new();
        let seed: Direction = ws.layout_direction_hint;
        match transaction {
            WindowTransaction::InsertTiled { id, size, anchor, seed_direction, hint } => {
                if !size.is_valid() {
                    return Err(LayoutError::InvalidSize);
                }
                if ws.contains_window(id) {
                    return Err(LayoutError::DuplicateWindow(id));
                }
                ws.tiled.insert(
                    id.0,
                    TiledWindow { id, geometry: Rect::centered_at(anchor, size) },
                );
                ws.layout_direction_hint = hint;
                ws.focus(id);
                assert(movements@ =~= Seq::empty());
                Ok(Prepared { source: Some(id), seed: seed_direction, movements })
            },
            WindowTransaction::MoveTiledFinished { id, target, seed_direction, hint } => {
                let window: TiledWindow = match ws.tiled.get(id.0) {
                    Some(window) => *window,
                    None => {
                        return Err(LayoutError::UnknownWindow(id));
                    },
                };
                let to: Rect = self.snap_target(
                    &*ws,
                    id,
                    window.geometry.translated(target.x, target.y),
                );
                ws.tiled.insert(id.0, TiledWindow { id: window.id, geometry: to });
                ws.layout_direction_hint = hint;
                ws.focus(id);
                movements.push(
                    Movement { window: id, from: window.geometry.origin, to: to.origin },
                );
                assert(movements@ =~= seq![
                    Movement { window: id, from: window.geometry.origin, to: to.origin },
                ]);
                Ok(Prepared { source: Some(id), seed: seed_direction, movements })
            },
            WindowTransaction::MoveFloating { id, target, viewport_size } => {
                let to: Rect = clamp_to_viewport(target, viewport_size);
                let from: Point = match ws.floating.get_mut(id.0) {
                    Some(placement) => {
                        let from: Point = placement.viewport.rect.origin;
                        placement.viewport.rect = to;
                        placement.viewport.normalized_center = NormalizedPoint::from_rect(
                            to,
                            viewport_size,
                        );
                        from
                    },
                    None => {
                        return Err(LayoutError::UnknownWindow(id));
                    },
                };
                ws.focus(id);
                movements.push(Movement { window: id, from, to: to.origin });
                assert(movements@ =~= seq![Movement { window: id, from, to: to.origin }]);
                Ok(Prepared { source: None, seed, movements })
            },
            WindowTransaction::SetMode { id, mode, viewport_size } => {
                let pushes: bool = match set_mode(ws, id, mode, viewport_size) {
                    Ok(pushes) => pushes,
                    Err(error) => {
                        return Err(error);
                    },
                };
                assert(movements@ =~= Seq::empty());
                Ok(
                    Prepared {
                        source: if pushes {
                            Some(id)
                        } else {
                            None
                        },
                        seed,
                        movements,
                    },
                )
            },
            WindowTransaction::Remove { id } => {
                if lift(ws, id).is_none() {
                    return Err(LayoutError::UnknownWindow(id));
                }
                ws.remove_focus(id);
                assert(movements@ =~= Seq::empty());
                Ok(Prepared { source: None, seed, movements })
            },
        }
    }

    /// Carries out a window transaction, all of it or nothing: where it fails, the workspace is
    /// as before.
    pub fn apply(
        &self,
        workspace: &mut Workspace,
        transaction: WindowTransaction,
        answers: &[Option<Point>],
    ) -> (r: Result<LayoutDelta, LayoutError>)
        ensures
            match self@.applied(old(workspace)@, transaction, answers@) {
                Ok((after, delta)) => r is Ok && final(workspace)@ == after && r->Ok_0@ == delta,
                Err(fault) => r is Err && r->Err_0@ == fault && final(workspace)@ == old(workspace)@,
            },
    {
        let mut working: Workspace = workspace.clone();
        let prepared: Prepared = match self.apply_to_working(&mut working, transaction) {
            Ok(prepared) => prepared,
            Err(error) => {
                return Err(error);
            },
        };
        let Prepared { source, seed, mut movements } = prepared;
        match source {
            Some(source) => {
                match push_apart(
                    self.gap,
                    self.operation_limit,
                    &mut working.tiled,
                    source,
                    seed,
                    answers,
                    0,
                ) {
                    Ok((more, _)) => {
                        let mut more: Vec<Movement> = more;
                        movements.append(&mut more);
                    },
                    Err(error) => {
                        return Err(error);
                    },
                }
            },
            None => {},
        }
        if !working.tiled_windows_are_stable(self.gap) {
            return Err(LayoutError::UnstableResult);
        }
        let generation: u64 = if workspace.generation == u64::MAX {
            0
        } else {
            workspace.generation + 1
        };
        working.generation = generation;
        let movements: Vec<Movement> = arrange_all(&movements);
        *workspace = working;
        Ok(LayoutDelta { generation, source, movements })
    }

    /// Lays out all tiled windows anew: each in turn pushes the others away. Returns how many
    /// answers have been used; the first `start` count as used before. Where it fails, the
    /// workspace is as before.
    pub fn reflow(&self, workspace: &mut Workspace, answers: &[Option<Point>], start: usize) -> (r:
        Result<usize, LayoutError>)
        requires
            start <= answers@.len(),
        ensures
            match self@.reflowed(old(workspace)@, answers@, start as nat) {
                Ok((after, used)) => r is Ok && r->Ok_0 == used && used <= answers@.len() && final(workspace)@ == after,
                Err(fault) => r is Err && r->Err_0@ == fault && final(workspace)@ == old(workspace)@,
            },
    {
        let mut working: Workspace = workspace.clone();
        let ids: Vec<u64> = working.tiled.keys();
        let seed: Direction = working.layout_direction_hint;
        let mut used: usize = start;
        let mut i: usize = 0;
        let ghost goal = self@.pushed_in_turn(working@.tiled, ids@, 0, seed, answers@, start as nat);
        while i < ids.len()
            invariant
                i <= ids@.len(),
                used <= answers@.len(),
                workspace@ == old(workspace)@,
                ids@ == ranking::ascending(old(workspace)@.tiled.dom()),
                seed == old(workspace)@.layout_direction_hint,
                goal == self@.pushed_in_turn(
                    old(workspace)@.tiled,
                    ids@,
                    0,
                    seed,
                    answers@,
                    start as nat,
                ),
                goal == self@.pushed_in_turn(
                    working@.tiled,
                    ids@,
                    i as int,
                    seed,
                    answers@,
                    used as nat,
                ),
                working@ == (workspace::WorkspaceView {
                    tiled: working@.tiled,
                    ..old(workspace)@
                }),
            decreases ids@.len() - i,
        {
            match push_apart(
                self.gap,
                self.operation_limit,
                &mut working.tiled,
                WindowId(ids[i]),
                seed,
                answers,
                used,
            ) {
                Ok((_, count)) => {
                    used = count;
                },
                Err(error) => {
                    return Err(error);
                },
            }
            i = i + 1;
        }
        if !working.tiled_windows_are_stable(self.gap) {
            return Err(LayoutError::UnstableResult);
        }
        working.generation = if workspace.generation == u64::MAX {
            0
        } else {
            workspace.generation + 1
        };
        *workspace = working;
        Ok(used)
    }
}

} // verus!
