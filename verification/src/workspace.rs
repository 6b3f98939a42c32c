//! Workspaces: their windows, their focus and their camera.

use crate::geometry;
use crate::geometry::{Direction, Point, Rect, Size};
use crate::id_map;
use crate::id_map::IdMap;
use crate::model;
use crate::model::{
    CameraPolicy, CameraState, FloatingPlacement, FullscreenPlacement, MaximizedPlacement,
    TiledWindow, WindowId, WindowMode, WorkspaceId,
};
use crate::rounding;
use crate::rounding::{halve_away, round_coordinate, round_sum};
use crate::text;
use crate::text::copy_option;
use crate::viewport;
use crate::viewport::ViewportChange;
use vstd::prelude::*;

verus! {

#[derive(Debug)]
pub struct Workspace {
    pub id: WorkspaceId,
    pub name: Option<String>,
    /// The stable key of the output that the workspace belongs to.
    pub original_output: Option<String>,
    pub tiled: IdMap<TiledWindow>,
    pub floating: IdMap<FloatingPlacement>,
    pub maximized: Option<MaximizedPlacement>,
    pub fullscreen: Option<FullscreenPlacement>,
    pub camera: CameraState,
    pub focused_window: Option<WindowId>,
    /// The windows that had the focus, the latest last.
    pub focus_history: Vec<WindowId>,
    pub layout_direction_hint: Direction,
    /// Counts the layouts that the workspace has had.
    pub generation: u64,
}

#[verifier::ext_equal]
pub struct WorkspaceView {
    pub id: WorkspaceId,
    pub name: Option<Seq<char>>,
    pub original_output: Option<Seq<char>>,
    pub tiled: Map<u64, TiledWindow>,
    pub floating: Map<u64, model::FloatingView>,
    pub maximized: Option<model::MaximizedView>,
    pub fullscreen: Option<model::FullscreenView>,
    pub camera: CameraState,
    pub focused_window: Option<WindowId>,
    pub focus_history: Seq<WindowId>,
    pub layout_direction_hint: Direction,
    pub generation: u64,
}

pub open spec fn maximized_view(m: Option<MaximizedPlacement>) -> Option<model::MaximizedView> {
    match m {
        Some(m) => Some(m@),
        None => None,
    }
}

pub open spec fn fullscreen_view(f: Option<FullscreenPlacement>) -> Option<model::FullscreenView> {
    match f {
        Some(f) => Some(f@),
        None => None,
    }
}

impl View for Workspace {
    type V = WorkspaceView;

    open spec fn view(&self) -> WorkspaceView {
        WorkspaceView {
            id: self.id,
            name: text::characters(self.name),
            original_output: text::characters(self.original_output),
            tiled: self.tiled@,
            floating: self.floating@,
            maximized: maximized_view(self.maximized),
            fullscreen: fullscreen_view(self.fullscreen),
            camera: self.camera,
            focused_window: self.focused_window,
            focus_history: self.focus_history@,
            layout_direction_hint: self.layout_direction_hint,
            generation: self.generation,
        }
    }
}

/// `history` without `id`.
pub open spec fn without(history: Seq<WindowId>, id: WindowId) -> Seq<WindowId>
    decreases history.len(),
{
    if history.len() == 0 {
        history
    } else {
        let rest = without(history.drop_last(), id);
        if history.last() == id {
            rest
        } else {
            rest.push(history.last())
        }
    }
}

/// The coordinate of the camera on one axis after it has followed a window that begins at
/// `start` and is `length` long, in a viewport of size `extent`: the window's middle where the
/// viewport has no room for the window and its margins, else as far as it takes to show them.
/// All sums are taken in binary64 numbers, those with halves in units of one half.
pub open spec fn followed_axis(camera: int, start: int, length: int, extent: int, margin: int) -> int {
    let w = rounding::binary64(extent);
    let m = rounding::binary64(viewport::not_negative(margin));
    let c = rounding::binary64(camera);
    let s = rounding::binary64(start);
    let l = rounding::binary64(length);
    if l > viewport::not_negative(rounding::binary64(w - 2 * m)) {
        geometry::saturated(start + geometry::half(length))
    } else if 2 * s < rounding::binary64(rounding::binary64(2 * c - w) + 2 * m) {
        geometry::saturated(
            rounding::half_away(rounding::binary64(rounding::binary64(2 * s - 2 * m) + w)),
        )
    } else if 2 * rounding::binary64(start + length) > rounding::binary64(
        rounding::binary64(2 * c + w) - 2 * m,
    ) {
        geometry::saturated(
            rounding::half_away(
                rounding::binary64(
                    rounding::binary64(rounding::binary64(2 * s + 2 * l) + 2 * m) - w,
                ),
            ),
        )
    } else {
        camera
    }
}

impl WorkspaceView {
    pub open spec fn blank(id: WorkspaceId) -> Self {
        WorkspaceView {
            id,
            name: None,
            original_output: None,
            tiled: Map::empty(),
            floating: Map::empty(),
            maximized: None,
            fullscreen: None,
            camera: CameraState::initial(),
            focused_window: None,
            focus_history: Seq::empty(),
            layout_direction_hint: Direction::rightward(),
            generation: 0,
        }
    }

    pub open spec fn is_maximized(self, id: WindowId) -> bool {
        self.maximized is Some && self.maximized->0.window == id
    }

    pub open spec fn is_fullscreen(self, id: WindowId) -> bool {
        self.fullscreen is Some && self.fullscreen->0.window == id
    }

    /// The mode of a window, if the workspace has it.
    pub open spec fn mode_of(self, id: WindowId) -> Option<WindowMode> {
        if self.tiled.contains_key(id.0) {
            Some(WindowMode::Tiled)
        } else if self.floating.contains_key(id.0) {
            Some(WindowMode::Floating)
        } else if self.is_maximized(id) {
            Some(WindowMode::Maximized)
        } else if self.is_fullscreen(id) {
            Some(WindowMode::Fullscreen)
        } else {
            None
        }
    }

    pub open spec fn has(self, id: WindowId) -> bool {
        self.mode_of(id) is Some
    }

    pub open spec fn size_of(self, id: WindowId) -> Option<Size> {
        match self.mode_of(id) {
            Some(WindowMode::Tiled) => Some(self.tiled[id.0].geometry.size),
            Some(WindowMode::Floating) => Some(self.floating[id.0].viewport.rect.size),
            Some(WindowMode::Maximized) => Some(self.maximized->0.restore.extent()),
            Some(WindowMode::Fullscreen) => Some(self.fullscreen->0.restore.base().extent()),
            None => None,
        }
    }

    /// The workspace with the focus on a window that it has; itself for any other.
    pub open spec fn focused(self, id: WindowId) -> Self {
        if self.has(id) {
            WorkspaceView {
                focus_history: without(self.focus_history, id).push(id),
                focused_window: Some(id),
                ..self
            }
        } else {
            self
        }
    }

    /// The latest window of a history that the workspace has.
    pub open spec fn latest(self, history: Seq<WindowId>) -> Option<WindowId>
        decreases history.len(),
    {
        if history.len() == 0 {
            None
        } else if self.has(history.last()) {
            Some(history.last())
        } else {
            self.latest(history.drop_last())
        }
    }

    /// The workspace without the focus on a window.
    pub open spec fn unfocused(self, id: WindowId) -> Self {
        let history = without(self.focus_history, id);
        WorkspaceView {
            focus_history: history,
            focused_window: if self.focused_window == Some(id) {
                self.latest(history)
            } else {
                self.focused_window
            },
            ..self
        }
    }

    /// Where the camera goes when it follows the focus in a viewport of that size. Only tiled
    /// windows have a place on the canvas: for others the camera stays.
    pub open spec fn followed_center(self, viewport: Size) -> Point {
        if self.focused_window is Some && self.tiled.contains_key((self.focused_window->0).0) {
            let rect = self.tiled[(self.focused_window->0).0].geometry;
            match self.camera.policy {
                CameraPolicy::Centered => rect.middle(),
                CameraPolicy::KeepVisible { margin } => Point {
                    x: followed_axis(
                        self.camera.center.x as int,
                        rect.origin.x as int,
                        rect.size.width as int,
                        viewport.width as int,
                        margin as int,
                    ) as i64,
                    y: followed_axis(
                        self.camera.center.y as int,
                        rect.origin.y as int,
                        rect.size.height as int,
                        viewport.height as int,
                        margin as int,
                    ) as i64,
                },
            }
        } else {
            self.camera.center
        }
    }

    pub open spec fn followed(self, viewport: Size) -> Self {
        WorkspaceView {
            camera: CameraState { center: self.followed_center(viewport), ..self.camera },
            ..self
        }
    }

    /// Whether no two tiled windows conflict.
    pub open spec fn stable(self, gap: int) -> bool {
        tiles_stable(self.tiled, gap)
    }

    /// Whether the workspace has a name or a window, and so is kept.
    pub open spec fn occupied(self) -> bool {
        self.name is Some || self.tiled.dom() != Set::<u64>::empty() || self.floating.dom()
            != Set::<u64>::empty() || self.maximized is Some || self.fullscreen is Some
    }

    /// The workspace with a change made to all its viewport places.
    pub open spec fn changed(self, change: viewport::ChangeView) -> Self {
        WorkspaceView {
            floating: self.floating.map_values(
                |f: model::FloatingView| model::FloatingView {
                    window: f.window,
                    viewport: f.viewport.changed(change),
                },
            ),
            maximized: match self.maximized {
                Some(m) => Some(
                    model::MaximizedView { window: m.window, restore: m.restore.changed(change) },
                ),
                None => None,
            },
            fullscreen: match self.fullscreen {
                Some(f) => Some(
                    model::FullscreenView { window: f.window, restore: f.restore.changed(change) },
                ),
                None => None,
            },
            ..self
        }
    }
}

/// Whether no two windows conflict.
pub open spec fn tiles_stable(tiled: Map<u64, TiledWindow>, gap: int) -> bool {
    forall|a: u64, b: u64|
        #[trigger] tiled.contains_key(a) && #[trigger] tiled.contains_key(b) && a != b
            ==> !tiled[a].geometry.conflicting(tiled[b].geometry, gap)
}

impl Clone for Workspace {
    fn clone(&self) -> (r: Self)
        ensures
            r@ == self@,
    {
        let tiled: IdMap<TiledWindow> = self.tiled.clone();
        let floating: IdMap<FloatingPlacement> = self.floating.clone();
        proof {
            assert(tiled@ =~= self.tiled@);
            assert(floating@ =~= self.floating@);
        }
        let maximized: Option<MaximizedPlacement> = match &self.maximized {
            Some(m) => Some(m.clone()),
            None => None,
        };
        let fullscreen: Option<FullscreenPlacement> = match &self.fullscreen {
            Some(f) => Some(f.clone()),
            None => None,
        };
        let focus_history: Vec<WindowId> = self.focus_history.clone();
        assert(focus_history@ =~= self.focus_history@);
        Workspace {
            id: self.id,
            name: copy_option(&self.name),
            original_output: copy_option(&self.original_output),
            tiled,
            floating,
            maximized,
            fullscreen,
            camera: self.camera,
            focused_window: self.focused_window,
            focus_history,
            layout_direction_hint: self.layout_direction_hint,
            generation: self.generation,
        }
    }
}

fn follow_axis(camera: i64, start: i64, length: i64, extent: i64, margin: i64) -> (r: i64)
    ensures
        r == followed_axis(
            camera as int,
            start as int,
            length as int,
            extent as int,
            margin as int,
        ),
{
    let margin: i64 = if margin > 0 {
        margin
    } else {
        0
    };
    let w: i128 = round_coordinate(extent);
    let m: i128 = round_coordinate(margin);
    let c: i128 = round_coordinate(camera);
    let s: i128 = round_coordinate(start);
    let l: i128 = round_coordinate(length);
    let room: i128 = round_sum(w - 2 * m);
    if l > 0 && l > room {
        let half: i128 = if length >= 0 {
            length as i128 / 2
        } else {
            -((-(length as i128)) / 2)
        };
        return geometry::saturate(start as i128 + half);
    }
    let low: i128 = round_sum(round_sum(2 * c - w) + 2 * m);
    if 2 * s < low {
        return halve_away(round_sum(round_sum(2 * s - 2 * m) + w));
    }
    let high: i128 = round_sum(round_sum(2 * c + w) - 2 * m);
    if 2 * round_sum(start as i128 + length as i128) > high {
        return halve_away(
            round_sum(round_sum(round_sum(2 * s + 2 * l) + 2 * m) - w),
        );
    }
    camera
}

impl Workspace {
    pub fn new(id: WorkspaceId) -> (r: Self)
        ensures
            r@ == WorkspaceView::blank(id),
    {
        let focus_history: Vec<WindowId> = Vec::new();
        assert(focus_history@ =~= Seq::empty());
        Workspace {
            id,
            name: None,
            original_output: None,
            tiled: IdMap::new(),
            floating: IdMap::new(),
            maximized: None,
            fullscreen: None,
            camera: CameraState::default(),
            focused_window: None,
            focus_history,
            layout_direction_hint: Direction::right(),
            generation: 0,
        }
    }

    pub fn tiled_window(&self, id: WindowId) -> (r: Option<&TiledWindow>)
        ensures
            match r {
                Some(w) => self@.tiled.contains_key(id.0) && *w == self@.tiled[id.0],
                None => !self@.tiled.contains_key(id.0),
            },
    {
        self.tiled.get(id.0)
    }

    pub fn window_mode(&self, id: WindowId) -> (r: Option<WindowMode>)
        ensures
            r == self@.mode_of(id),
    {
        if self.tiled.contains_key(id.0) {
            return Some(WindowMode::Tiled);
        }
        if self.floating.contains_key(id.0) {
            return Some(WindowMode::Floating);
        }
        match &self.maximized {
            Some(maximized) => {
                if maximized.window == id {
                    return Some(WindowMode::Maximized);
                }
            },
            None => {},
        }
        match &self.fullscreen {
            Some(fullscreen) => {
                if fullscreen.window == id {
                    return Some(WindowMode::Fullscreen);
                }
            },
            None => {},
        }
        None
    }

    pub fn contains_window(&self, id: WindowId) -> (r: bool)
        ensures
            r == self@.has(id),
    {
        self.window_mode(id).is_some()
    }

    pub fn window_size(&self, id: WindowId) -> (r: Option<Size>)
        ensures
            r == self@.size_of(id),
    {
        match self.tiled.get(id.0) {
            Some(window) => {
                return Some(window.geometry.size);
            },
            None => {},
        }
        match self.floating.get(id.0) {
            Some(placement) => {
                return Some(placement.viewport.rect.size);
            },
            None => {},
        }
        match &self.maximized {
            Some(maximized) => {
                if maximized.window == id {
                    return Some(maximized.size());
                }
            },
            None => {},
        }
        match &self.fullscreen {
            Some(fullscreen) => {
                if fullscreen.window == id {
                    return Some(fullscreen.size());
                }
            },
            None => {},
        }
        None
    }

    fn drop_from_history(&mut self, id: WindowId)
        ensures
            final(self)@ == (WorkspaceView {
                focus_history: without(old(self)@.focus_history, id),
                ..old(self)@
            }),
    {
        let mut kept: Vec<WindowId> = Vec::new();
        let mut i: usize = 0;
        assert(self.focus_history@.take(0) =~= Seq::empty());
        while i < self.focus_history.len()
            invariant
                i <= self.focus_history@.len(),
                self@ == old(self)@,
                kept@ == without(self.focus_history@.take(i as int), id),
            decreases self.focus_history@.len() - i,
        {
            let candidate: WindowId = self.focus_history[i];
            assert(self.focus_history@.take(i + 1).drop_last() =~= self.focus_history@.take(
                i as int,
            ));
            if candidate != id {
                kept.push(candidate);
            }
            i = i + 1;
        }
        assert(self.focus_history@.take(i as int) =~= self.focus_history@);
        self.focus_history = kept;
    }

    /// Gives a window of this workspace the focus.
    pub fn focus(&mut self, id: WindowId) -> (r: bool)
        ensures
            r == old(self)@.has(id),
            final(self)@ == old(self)@.focused(id),
    {
        if !self.contains_window(id) {
            return false;
        }
        self.drop_from_history(id);
        self.focus_history.push(id);
        self.focused_window = Some(id);
        true
    }

    /// Takes the focus from a window and gives it to the latest window that had it before.
    pub fn remove_focus(&mut self, id: WindowId)
        ensures
            final(self)@ == old(self)@.unfocused(id),
    {
        self.drop_from_history(id);
        let had_focus: bool = match self.focused_window {
            Some(focused) => focused == id,
            None => false,
        };
        if had_focus {
            let mut found: Option<WindowId> = None;
            let mut i: usize = self.focus_history.len();
            let ghost history = self.focus_history@;
            assert(history.take(i as int) =~= history);
            while i > 0 && found.is_none()
                invariant
                    i <= history.len(),
                    self.focus_history@ == history,
                    self@ == (WorkspaceView {
                        focus_history: without(old(self)@.focus_history, id),
                        ..old(self)@
                    }),
                    match found {
                        Some(w) => self@.latest(history) == Some(w),
                        None => self@.latest(history) == self@.latest(history.take(i as int)),
                    },
                decreases i,
            {
                let candidate: WindowId = self.focus_history[i - 1];
                assert(history.take(i as int).last() == candidate);
                assert(history.take(i as int).drop_last() =~= history.take(i - 1));
                if self.contains_window(candidate) {
                    found = Some(candidate);
                }
                i = i - 1;
            }
            self.focused_window = found;
            proof {
                latest_ignores_focus(
                    old(self)@,
                    WorkspaceView {
                        focus_history: without(old(self)@.focus_history, id),
                        ..old(self)@
                    },
                    history,
                );
            }
        }
    }

    /// Moves the camera according to its policy so that the focused tiled window is visible.
    /// Floating, maximized and fullscreen windows are local to the viewport and never move the
    /// camera. Returns whether the camera has moved.
    pub fn follow_focus(&mut self, viewport_size: Size) -> (r: bool)
        ensures
            final(self)@ == old(self)@.followed(viewport_size),
            r == (final(self)@.camera.center != old(self)@.camera.center),
    {
        let focused: WindowId = match self.focused_window {
            Some(focused) => focused,
            None => {
                return false;
            },
        };
        let rect: Rect = match self.tiled.get(focused.0) {
            Some(window) => window.geometry,
            None => {
                return false;
            },
        };
        let before: Point = self.camera.center;
        let center: Point = match self.camera.policy {
            CameraPolicy::Centered => rect.center(),
            CameraPolicy::KeepVisible { margin } => Point {
                x: follow_axis(
                    before.x,
                    rect.origin.x,
                    rect.size.width,
                    viewport_size.width,
                    margin,
                ),
                y: follow_axis(
                    before.y,
                    rect.origin.y,
                    rect.size.height,
                    viewport_size.height,
                    margin,
                ),
            },
        };
        self.camera.center = center;
        center != before
    }

    /// Whether no two tiled windows come closer than `gap`.
    pub fn tiled_windows_are_stable(&self, gap: i64) -> (r: bool)
        ensures
            r == self@.stable(gap as int),
    {
        let ids: Vec<u64> = self.tiled.keys();
        let mut i: usize = 0;
        while i < ids.len()
            invariant
                i <= ids@.len(),
                ids@.to_set() == self.tiled@.dom(),
                id_map::ascend(ids@),
                forall|a: int, b: int|
                    0 <= a < i && a < b < ids@.len() ==> !self.tiled@[#[trigger] ids@[a]].geometry
                        .conflicting(self.tiled@[#[trigger] ids@[b]].geometry, gap as int),
            decreases ids@.len() - i,
        {
            proof {
                assert(ids@.to_set().contains(ids@[i as int]));
            }
            let first: Rect = match self.tiled.get(ids[i]) {
                Some(window) => window.geometry,
                None => {
                    return false;
                },
            };
            let mut j: usize = i + 1;
            while j < ids.len()
                invariant
                    i < j <= ids@.len(),
                    ids@.to_set() == self.tiled@.dom(),
                    id_map::ascend(ids@),
                    first == self.tiled@[ids@[i as int]].geometry,
                    forall|b: int|
                        i < b < j ==> !first.conflicting(
                            self.tiled@[#[trigger] ids@[b]].geometry,
                            gap as int,
                        ),
                decreases ids@.len() - j,
            {
                proof {
                    assert(ids@.to_set().contains(ids@[j as int]));
                    assert(ids@.to_set().contains(ids@[i as int]));
                }
                let second: Rect = match self.tiled.get(ids[j]) {
                    Some(window) => window.geometry,
                    None => {
                        return false;
                    },
                };
                if first.conflicts(second, gap) {
                    proof {
                        assert(self.tiled@.contains_key(ids@[i as int]));
                        assert(self.tiled@.contains_key(ids@[j as int]));
                        assert(ids@[i as int] < ids@[j as int]);
                    }
                    return false;
                }
                j = j + 1;
            }
            i = i + 1;
        }
        proof {
            assert forall|a: u64, b: u64| #[trigger]
                self.tiled@.contains_key(a) && #[trigger] self.tiled@.contains_key(b) && a
                    != b implies !self.tiled@[a].geometry.conflicting(
                self.tiled@[b].geometry,
                gap as int,
            ) by {
                assert(ids@.to_set().contains(a));
                assert(ids@.to_set().contains(b));
                let x = choose|x: int| 0 <= x < ids@.len() && ids@[x] == a;
                let y = choose|y: int| 0 <= y < ids@.len() && ids@[y] == b;
                if x < y {
                    assert(!self.tiled@[ids@[x]].geometry.conflicting(
                        self.tiled@[ids@[y]].geometry,
                        gap as int,
                    ));
                } else {
                    assert(!self.tiled@[ids@[y]].geometry.conflicting(
                        self.tiled@[ids@[x]].geometry,
                        gap as int,
                    ));
                }
            }
        }
        true
    }

    /// Whether the workspace has a name or a window.
    pub fn has_windows_or_name(&self) -> (r: bool)
        ensures
            r == self@.occupied(),
    {
        self.name.is_some() || !self.tiled.is_empty() || !self.floating.is_empty()
            || self.maximized.is_some() || self.fullscreen.is_some()
    }

    /// Makes a change to every viewport place of the workspace.
    pub fn change_viewports(&mut self, change: &ViewportChange)
        ensures
            final(self)@ == old(self)@.changed(change@),
    {
        let ids: Vec<u64> = self.floating.keys();
        let ghost before = self.floating@;
        let ghost f = |f: model::FloatingView| model::FloatingView {
            window: f.window,
            viewport: f.viewport.changed(change@),
        };
        let mut i: usize = 0;
        while i < ids.len()
            invariant
                i <= ids@.len(),
                ids@.to_set() == before.dom(),
                forall|a: int, b: int| 0 <= a < b < ids@.len() ==> ids@[a] < ids@[b],
                self.floating@.dom() == before.dom(),
                forall|k: int|
                    0 <= k < i ==> self.floating@[#[trigger] ids@[k]] == f(before[ids@[k]]),
                forall|k: int|
                    i <= k < ids@.len() ==> self.floating@[#[trigger] ids@[k]] == before[ids@[k]],
                self@ == (WorkspaceView { floating: self.floating@, ..old(self)@ }),
                f == (|f: model::FloatingView| model::FloatingView {
                    window: f.window,
                    viewport: f.viewport.changed(change@),
                }),
            decreases ids@.len() - i,
        {
            proof {
                assert(ids@.to_set().contains(ids@[i as int]));
            }
            let ghost here = self.floating@;
            match self.floating.get_mut(ids[i]) {
                Some(placement) => {
                    placement.viewport.change(change);
                },
                None => {},
            }
            proof {
                assert(self.floating@ =~= here.insert(ids@[i as int], f(here[ids@[i as int]])));
                assert(self.floating@.dom() =~= before.dom());
            }
            i = i + 1;
        }
        proof {
            assert forall|k: u64| before.contains_key(k) implies self.floating@[k] == f(
                before[k],
            ) by {
                assert(ids@.to_set().contains(k));
                let x = choose|x: int| 0 <= x < ids@.len() && ids@[x] == k;
                assert(self.floating@[ids@[x]] == f(before[ids@[x]]));
            }
            assert(self.floating@ =~= before.map_values(f));
        }
        match &mut self.maximized {
            Some(maximized) => {
                maximized.restore.change(change);
            },
            None => {},
        }
        match &mut self.fullscreen {
            Some(fullscreen) => {
                fullscreen.restore.change(change);
            },
            None => {},
        }
    }
}

/// Which windows a workspace has does not depend on its focus.
proof fn latest_ignores_focus(a: WorkspaceView, b: WorkspaceView, history: Seq<WindowId>)
    requires
        a.tiled == b.tiled,
        a.floating == b.floating,
        a.maximized == b.maximized,
        a.fullscreen == b.fullscreen,
    ensures
        a.latest(history) == b.latest(history),
    decreases history.len(),
{
    if history.len() > 0 {
        latest_ignores_focus(a, b, history.drop_last());
    }
}

/// The views of a list of workspaces.
pub open spec fn views(workspaces: Seq<Workspace>) -> Seq<WorkspaceView> {
    Seq::new(workspaces.len(), |i: int| workspaces[i]@)
}

pub broadcast proof fn views_push(list: Seq<Workspace>, ws: Workspace)
    ensures
        #[trigger] views(list.push(ws)) == views(list).push(ws@),
{
    assert(views(list.push(ws)) =~= views(list).push(ws@));
}

pub broadcast proof fn views_insert(list: Seq<Workspace>, i: int, ws: Workspace)
    requires
        0 <= i <= list.len(),
    ensures
        #[trigger] views(list.insert(i, ws)) == views(list).insert(i, ws@),
{
    assert(views(list.insert(i, ws)) =~= views(list).insert(i, ws@));
}

pub broadcast proof fn views_remove(list: Seq<Workspace>, i: int)
    requires
        0 <= i < list.len(),
    ensures
        #[trigger] views(list.remove(i)) == views(list).remove(i),
{
    assert(views(list.remove(i)) =~= views(list).remove(i));
}

pub broadcast proof fn views_update(list: Seq<Workspace>, i: int, ws: Workspace)
    requires
        0 <= i < list.len(),
    ensures
        #[trigger] views(list.update(i, ws)) == views(list).update(i, ws@),
{
    assert(views(list.update(i, ws)) =~= views(list).update(i, ws@));
}

pub broadcast proof fn views_append(a: Seq<Workspace>, b: Seq<Workspace>)
    ensures
        #[trigger] views(a + b) == views(a) + views(b),
{
    assert(views(a + b) =~= views(a) + views(b));
}

/// Views of lists follow the lists.
pub broadcast group group_views {
    views_push,
    views_insert,
    views_remove,
    views_update,
    views_append,
}

} // verus!
