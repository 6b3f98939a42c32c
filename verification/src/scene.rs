//! What an output draws, and which sizes clients are asked for.

use crate::compositor;
use crate::compositor::{is_mapped, Astera};
use crate::desktop;
use crate::geometry::{Point, Size};
use crate::layout;
use crate::layout::world_rect_to_viewport;
use crate::model::{WindowId, WindowMode, WorkspaceId};
use crate::workspace;
use crate::workspace::Workspace;
use vstd::prelude::*;

verus! {

/// The nearest number with 32 bits.
pub open spec fn clamped_i32(value: i64) -> i32 {
    if value < i32::MIN {
        i32::MIN
    } else if value > i32::MAX {
        i32::MAX
    } else {
        value as i32
    }
}

/// The nearest number with 32 bits.
pub fn saturating_i32(value: i64) -> (r: i32)
    ensures
        r == clamped_i32(value),
{
    if value < -0x8000_0000 {
        i32::MIN
    } else if value > 0x7fff_ffff {
        i32::MAX
    } else {
        value as i32
    }
}

/// A window where an output draws it.
#[derive(Clone, Copy, Debug, Eq, PartialEq, Structural)]
pub struct DrawnWindow {
    pub window: WindowId,
    pub x: i32,
    pub y: i32,
}

/// What a client is asked to be.
#[derive(Clone, Copy, Debug, Eq, PartialEq)]
pub struct RequestedState {
    pub size: Option<(i32, i32)>,
    pub fullscreen: bool,
}

/// The layer that a mode is drawn in; higher layers cover lower ones.
pub open spec fn layer(mode: WindowMode) -> int {
    match mode {
        WindowMode::Tiled => 0,
        WindowMode::Floating => 1,
        WindowMode::Maximized => 2,
        WindowMode::Fullscreen => 3,
    }
}

fn layer_of(mode: WindowMode) -> (r: u8)
    ensures
        r == layer(mode),
{
    match mode {
        WindowMode::Tiled => 0,
        WindowMode::Floating => 1,
        WindowMode::Maximized => 2,
        WindowMode::Fullscreen => 3,
    }
}

/// Where a window of a workspace is drawn in a viewport: tiled windows as the camera sees them,
/// floating ones where they are, and those that fill the output in its corner.
pub open spec fn drawn_at(ws: workspace::WorkspaceView, id: WindowId, viewport: Size) -> Point {
    match ws.mode_of(id) {
        Some(WindowMode::Tiled) => layout::to_viewport(
            ws.tiled[id.0].geometry,
            ws.camera.center,
            viewport,
        ).origin,
        Some(WindowMode::Floating) => ws.floating[id.0].viewport.rect.origin,
        _ => Point { x: 0, y: 0 },
    }
}

pub open spec fn drawn(ws: workspace::WorkspaceView, id: WindowId, viewport: Size) -> DrawnWindow {
    let at = drawn_at(ws, id, viewport);
    DrawnWindow { window: id, x: clamped_i32(at.x), y: clamped_i32(at.y) }
}

/// The windows of a list that a workspace has in one layer, as they are drawn.
pub open spec fn drawn_in_layer(
    ws: workspace::WorkspaceView,
    viewport: Size,
    windows: Seq<WindowId>,
    level: int,
) -> Seq<DrawnWindow>
    decreases windows.len(),
{
    if windows.len() == 0 {
        Seq::empty()
    } else {
        let before = drawn_in_layer(ws, viewport, windows.drop_last(), level);
        match ws.mode_of(windows.last()) {
            Some(mode) => if layer(mode) == level {
                before.push(drawn(ws, windows.last(), viewport))
            } else {
                before
            },
            None => before,
        }
    }
}

/// The windows of a workspace as they are drawn: layer after layer, each in the order of the
/// list.
pub open spec fn drawn_windows(
    ws: workspace::WorkspaceView,
    viewport: Size,
    windows: Seq<WindowId>,
    levels: int,
) -> Seq<DrawnWindow>
    decreases levels,
{
    if levels <= 0 {
        Seq::empty()
    } else {
        drawn_windows(ws, viewport, windows, levels - 1) + drawn_in_layer(
            ws,
            viewport,
            windows,
            levels - 1,
        )
    }
}

fn place_window(ws: &Workspace, id: WindowId, viewport: Size) -> (r: DrawnWindow)
    ensures
        r == drawn(ws@, id, viewport),
{
    let at: Point = match ws.window_mode(id) {
        Some(WindowMode::Tiled) => match ws.tiled.get(id.0) {
            Some(tile) => world_rect_to_viewport(
                tile.geometry,
                ws.camera.center,
                viewport,
            ).origin,
            None => Point { x: 0, y: 0 },
        },
        Some(WindowMode::Floating) => match ws.floating.get(id.0) {
            Some(float) => float.viewport.rect.origin,
            None => Point { x: 0, y: 0 },
        },
        _ => Point { x: 0, y: 0 },
    };
    DrawnWindow { window: id, x: saturating_i32(at.x), y: saturating_i32(at.y) }
}

fn draw_layer(
    list: &mut Vec<DrawnWindow>,
    ws: &Workspace,
    viewport: Size,
    windows: &Vec<WindowId>,
    level: u8,
)
    ensures
        final(list)@ == old(list)@ + drawn_in_layer(ws@, viewport, windows@, level as int),
{
    let ghost before = list@;
    let mut i: usize = 0;
    assert(before =~= before + drawn_in_layer(ws@, viewport, windows@.take(0), level as int));
    while i < windows.len()
        invariant
            i <= windows@.len(),
            list@ == before + drawn_in_layer(ws@, viewport, windows@.take(i as int), level as int),
        decreases windows@.len() - i,
    {
        let id: WindowId = windows[i];
        proof {
            let next = windows@.take(i + 1);
            assert(next.drop_last() =~= windows@.take(i as int));
            assert(next.last() == id);
        }
        if let Some(mode) = ws.window_mode(id) {
            if layer_of(mode) == level {
                list.push(place_window(ws, id, viewport));
            }
        }
        i = i + 1;
        assert(list@ =~= before + drawn_in_layer(
            ws@,
            viewport,
            windows@.take(i as int),
            level as int,
        ));
    }
    assert(windows@.take(i as int) =~= windows@);
}

/// Whether the windows in a mode fill their output: a maximized one has the area that is left to
/// windows, which is all of it, and a fullscreen one covers everything.
pub open spec fn fills(mode: WindowMode) -> bool {
    mode == WindowMode::Maximized || mode == WindowMode::Fullscreen
}

/// The windows of a workspace that fill their output.
pub open spec fn filling(ws: workspace::WorkspaceView) -> Seq<WindowId> {
    (match ws.maximized {
        Some(m) => seq![m.window],
        None => Seq::empty(),
    }) + (match ws.fullscreen {
        Some(full) => seq![full.window],
        None => Seq::empty(),
    })
}

/// The mapped ones among the first `n` of some windows, each with a size.
pub open spec fn mapped_with(
    list: Seq<WindowId>,
    n: int,
    windows: Seq<WindowId>,
    size: (i32, i32),
) -> Seq<(WindowId, (i32, i32))>
    decreases n,
{
    if n <= 0 {
        Seq::empty()
    } else {
        let before = mapped_with(list, n - 1, windows, size);
        if windows.contains(list[n - 1]) {
            before.push((list[n - 1], size))
        } else {
            before
        }
    }
}

/// The windows of a workspace that fill their output, each with the size of the output.
pub open spec fn filling_sizes(
    desktop: desktop::DesktopView,
    windows: Seq<WindowId>,
    ws: workspace::WorkspaceView,
) -> Seq<(WindowId, (i32, i32))> {
    match desktop.place(ws.id) {
        Some((Some(k), _)) => mapped_with(
            filling(ws),
            filling(ws).len() as int,
            windows,
            asked(desktop.outputs[k].output.logical_size),
        ),
        _ => Seq::empty(),
    }
}

/// The windows that fill their outputs among the first `n` workspaces, each with the size of its
/// output.
pub open spec fn filling_among(
    desktop: desktop::DesktopView,
    windows: Seq<WindowId>,
    all: Seq<workspace::WorkspaceView>,
    n: int,
) -> Seq<(WindowId, (i32, i32))>
    decreases n,
{
    if n <= 0 {
        Seq::empty()
    } else {
        filling_among(desktop, windows, all, n - 1) + filling_sizes(desktop, windows, all[n - 1])
    }
}

/// A size as a client is asked for it.
pub open spec fn asked(size: Size) -> (i32, i32) {
    (clamped_i32(size.width), clamped_i32(size.height))
}

fn ask(size: Size) -> (r: (i32, i32))
    ensures
        r == asked(size),
{
    (saturating_i32(size.width), saturating_i32(size.height))
}

impl compositor::AsteraView {
    /// What the client of a window is asked to be when the window has changed its mode; nothing
    /// where the window is not on the desktop or not mapped.
    pub open spec fn requested_state(self, window: WindowId, mode: WindowMode) -> Option<
        RequestedState,
    > {
        match self.desktop.owner(window) {
            Ok(id) => match self.desktop.place(id) {
                Some(place) => if self.windows.contains(window) {
                    Some(
                        RequestedState {
                            size: if fills(mode) {
                                match self.desktop.output_at(place) {
                                    Some(output) => Some(asked(output.logical_size)),
                                    None => None,
                                }
                            } else {
                                match self.desktop.at(place).size_of(window) {
                                    Some(size) => Some(asked(size)),
                                    None => None,
                                }
                            },
                            fullscreen: mode == WindowMode::Fullscreen,
                        },
                    )
                } else {
                    None
                },
                None => None,
            },
            Err(_) => None,
        }
    }

    /// What the active output draws.
    pub open spec fn drawn(self) -> Seq<DrawnWindow> {
        match self.desktop.shown(self.active_output) {
            Some(ws) => drawn_windows(
                ws,
                self.desktop.outputs[desktop::key(self.active_output)].output.logical_size,
                self.windows,
                4,
            ),
            None => Seq::empty(),
        }
    }
}

impl Astera {
    /// The windows that the active output draws, the lowest first.
    pub fn mapped_windows(&self) -> (r: Vec<DrawnWindow>)
        ensures
            r@ == self@.drawn(),
    {
        let mut list: Vec<DrawnWindow> = Vec::new();
        if let Some(set) = self.desktop.outputs.get(self.active_output.0 as u64) {
            if let Some(ws) = set.active_workspace() {
                let viewport: Size = set.output.logical_size;
                let mut level: u8 = 0;
                while level < 4
                    invariant
                        level <= 4,
                        list@ == drawn_windows(ws@, viewport, self.windows@, level as int),
                    decreases 4 - level,
                {
                    draw_layer(&mut list, ws, viewport, &self.windows, level);
                    level = level + 1;
                }
                return list;
            }
        }
        assert(list@ =~= Seq::empty());
        list
    }

    /// What the client of a window is asked to be when the window has changed its mode.
    pub fn requested_state(&self, window: WindowId, mode: WindowMode) -> (r: Option<RequestedState>)
        ensures
            r == self@.requested_state(window, mode),
    {
        let id: WorkspaceId = match self.desktop.find_window(window) {
            Ok(id) => id,
            Err(_) => {
                return None;
            },
        };
        let place: (Option<u64>, usize) = match self.desktop.find_place(id) {
            Some(place) => place,
            None => {
                return None;
            },
        };
        if !is_mapped(&self.windows, window) {
            return None;
        }
        let fullscreen: bool = match mode {
            WindowMode::Fullscreen => true,
            _ => false,
        };
        let filling: bool = match mode {
            WindowMode::Maximized | WindowMode::Fullscreen => true,
            _ => false,
        };
        let size: Option<Size> = if filling {
            match place.0 {
                Some(k) => match self.desktop.outputs.get(k) {
                    Some(set) => Some(set.output.logical_size),
                    None => None,
                },
                None => None,
            }
        } else {
            self.desktop.get_at(place).window_size(window)
        };
        Some(
            RequestedState {
                size: match size {
                    Some(size) => Some(ask(size)),
                    None => None,
                },
                fullscreen,
            },
        )
    }

    /// The maximized and fullscreen windows that are on outputs, each with the size that its
    /// client is asked for.
    pub fn filling_sizes(&self) -> (r: Vec<(WindowId, (i32, i32))>)
        ensures
            r@ == filling_among(
                self@.desktop,
                self@.windows,
                self@.desktop.all(),
                self@.desktop.all().len() as int,
            ),
    {
        let all: Vec<&Workspace> = self.desktop.workspaces();
        let mut list: Vec<(WindowId, (i32, i32))> = Vec::new();
        let mut i: usize = 0;
        while i < all.len()
            invariant
                i <= all@.len(),
                desktop::borrowed_views(all@) == self@.desktop.all(),
                list@ == filling_among(
                    self@.desktop,
                    self@.windows,
                    self@.desktop.all(),
                    i as int,
                ),
            decreases all@.len() - i,
        {
            assert(all@[i as int]@ == self@.desktop.all()[i as int]);
            let ghost ws = all@[i as int]@;
            let ghost before = list@;
            let ghost shown = filling(ws);
            if let Some((Some(k), _)) = self.desktop.find_place(all[i].id) {
                if let Some(set) = self.desktop.outputs.get(k) {
                    let size: (i32, i32) = ask(set.output.logical_size);
                    let ghost n: int = if ws.maximized is Some {
                        1
                    } else {
                        0
                    };
                    if let Some(maximized) = &all[i].maximized {
                        assert(shown[0] == maximized.window);
                        if is_mapped(&self.windows, maximized.window) {
                            list.push((maximized.window, size));
                        }
                    }
                    proof {
                        reveal_with_fuel(mapped_with, 2);
                        assert(list@ =~= before + mapped_with(shown, n, self@.windows, size));
                    }
                    let ghost middle = list@;
                    if let Some(full) = &all[i].fullscreen {
                        assert(shown[n] == full.window);
                        if is_mapped(&self.windows, full.window) {
                            list.push((full.window, size));
                        }
                    }
                    assert(list@ =~= before + mapped_with(
                        shown,
                        shown.len() as int,
                        self@.windows,
                        size,
                    ));
                }
            }
            i = i + 1;
            assert(list@ =~= before + filling_sizes(self@.desktop, self@.windows, ws));
        }
        list
    }
}

} // verus!
