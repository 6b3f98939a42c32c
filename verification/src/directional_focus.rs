//! Moving the focus to a neighbouring window.
//!
//! The windows that can get the focus are listed with their offsets from the focused window.
//! How well each lies in the wanted direction is a matter of angles and distances: the caller
//! computes them and hands in a score for each candidate.

use crate::desktop;
use crate::desktop::{Desktop, DesktopError};
use crate::geometry::{Direction, Point};
use crate::id_map;
use crate::model::{WindowId, WindowMode, WorkspaceId};
use crate::ranking;
use crate::transactions::viewport_of;
use crate::workspace;
use crate::workspace::Workspace;
use vstd::prelude::*;

verus! {

/// A window that can get the focus, and where its centre lies from that of the focused window.
#[derive(Clone, Copy, Debug, Eq, PartialEq, Structural)]
pub struct FocusCandidate {
    pub window: WindowId,
    pub dx: i128,
    pub dy: i128,
}

/// How far a candidate is off the wanted direction, and how far away it is. Both are the bit
/// patterns of IEEE 754 binary64 numbers that are not negative, which have the order of the
/// numbers.
#[derive(Clone, Copy, Debug, Eq, PartialEq, Structural)]
pub struct FocusScore {
    pub angle_bits: u64,
    pub distance_bits: u64,
}

/// Whether the first of two scored windows is to be preferred: the smaller angle, of equal ones
/// the smaller distance, of these the smaller id.
pub open spec fn preferred(a: FocusScore, x: WindowId, b: FocusScore, y: WindowId) -> bool {
    a.angle_bits < b.angle_bits || (a.angle_bits == b.angle_bits && (a.distance_bits
        < b.distance_bits || (a.distance_bits == b.distance_bits && x.0 < y.0)))
}

/// The score of the candidate at a place. A candidate without one does not lie in the wanted
/// direction.
pub open spec fn score_at(scores: Seq<Option<FocusScore>>, i: int) -> Option<FocusScore> {
    if 0 <= i < scores.len() {
        scores[i]
    } else {
        None
    }
}

/// Whether the candidate at a place is the one to prefer among all that have a score.
pub open spec fn is_best(
    candidates: Seq<FocusCandidate>,
    scores: Seq<Option<FocusScore>>,
    i: int,
) -> bool {
    &&& 0 <= i < candidates.len()
    &&& score_at(scores, i) is Some
    &&& forall|j: int|
        0 <= j < candidates.len() && (#[trigger] score_at(scores, j)) is Some ==> !preferred(
            score_at(scores, j)->0,
            candidates[j].window,
            score_at(scores, i)->0,
            candidates[i].window,
        )
}

impl workspace::WorkspaceView {
    /// The centre of a tiled or floating window in its own coordinates.
    pub open spec fn center_of(self, id: u64, tiled: bool) -> Point {
        if tiled {
            self.tiled[id].geometry.middle()
        } else {
            self.floating[id].viewport.rect.middle()
        }
    }

    /// The other windows of the focused window's mode, in the order of their ids, as far as it
    /// is tiled or floating.
    pub open spec fn neighbours(self) -> Seq<u64> {
        match self.focused_window {
            Some(focused) => match self.mode_of(focused) {
                Some(WindowMode::Tiled) => ranking::ascending(self.tiled.dom().remove(focused.0)),
                Some(WindowMode::Floating) => ranking::ascending(
                    self.floating.dom().remove(focused.0),
                ),
                _ => Seq::empty(),
            },
            None => Seq::empty(),
        }
    }

    pub open spec fn focus_candidates(self) -> Seq<FocusCandidate> {
        let tiled = self.mode_of(self.focused_window->0) == Some(WindowMode::Tiled);
        let origin = self.center_of((self.focused_window->0).0, tiled);
        Seq::new(
            self.neighbours().len(),
            |i: int|
                {
                    let id = self.neighbours()[i];
                    FocusCandidate {
                        window: WindowId(id),
                        dx: (self.center_of(id, tiled).x - origin.x) as i128,
                        dy: (self.center_of(id, tiled).y - origin.y) as i128,
                    }
                },
        )
    }

    /// The window that gets the focus.
    pub open spec fn next_in_direction(self, scores: Seq<Option<FocusScore>>) -> Option<WindowId> {
        if exists|i: int| is_best(self.focus_candidates(), scores, i) {
            Some(
                self.focus_candidates()[choose|i: int|
                    is_best(self.focus_candidates(), scores, i)].window,
            )
        } else {
            None
        }
    }
}

/// One of finitely many scored windows has no other that is preferred to it.
proof fn some_score_is_best(
    candidates: Seq<FocusCandidate>,
    scores: Seq<Option<FocusScore>>,
    n: int,
) -> (b: int)
    requires
        0 < n <= candidates.len(),
        exists|j: int| 0 <= j < n && (#[trigger] score_at(scores, j)) is Some,
    ensures
        0 <= b < n,
        score_at(scores, b) is Some,
        forall|j: int|
            0 <= j < n && (#[trigger] score_at(scores, j)) is Some ==> !preferred(
                score_at(scores, j)->0,
                candidates[j].window,
                score_at(scores, b)->0,
                candidates[b].window,
            ),
    decreases n,
{
    if n > 1 && exists|j: int| 0 <= j < n - 1 && (#[trigger] score_at(scores, j)) is Some {
        let b = some_score_is_best(candidates, scores, n - 1);
        if score_at(scores, n - 1) is Some && preferred(
            score_at(scores, n - 1)->0,
            candidates[n - 1].window,
            score_at(scores, b)->0,
            candidates[b].window,
        ) {
            n - 1
        } else {
            b
        }
    } else {
        n - 1
    }
}

/// The focus goes to a candidate that has a score, unless none has. No other has a smaller angle;
/// none of the same angle is nearer; and of those that are as good in both, none has a smaller id.
pub proof fn best_scores_win(ws: workspace::WorkspaceView, scores: Seq<Option<FocusScore>>)
    ensures
        match ws.next_in_direction(scores) {
            Some(target) => exists|i: int|
                0 <= i < ws.focus_candidates().len() && i < scores.len()
                    && (#[trigger] ws.focus_candidates()[i]).window == target && scores[i] is Some
                    && forall|j: int|
                    0 <= j < ws.focus_candidates().len() && j < scores.len()
                        && (#[trigger] scores[j]) is Some ==> {
                        let (best, other) = (scores[i]->0, scores[j]->0);
                        &&& best.angle_bits <= other.angle_bits
                        &&& best.angle_bits == other.angle_bits ==> best.distance_bits
                            <= other.distance_bits
                        &&& best.angle_bits == other.angle_bits && best.distance_bits
                            == other.distance_bits ==> target.0
                            <= ws.focus_candidates()[j].window.0
                    },
            None => forall|j: int|
                0 <= j < ws.focus_candidates().len() && j < scores.len() ==> (#[trigger] scores[j])
                    is None,
        },
{
    let candidates = ws.focus_candidates();
    if exists|i: int| is_best(candidates, scores, i) {
        let i = choose|i: int| is_best(candidates, scores, i);
        assert(is_best(candidates, scores, i));
        assert forall|j: int|
            0 <= j < candidates.len() && j < scores.len() && (#[trigger] scores[j]) is Some implies {
            let (best, other) = (scores[i]->0, scores[j]->0);
            &&& best.angle_bits <= other.angle_bits
            &&& best.angle_bits == other.angle_bits ==> best.distance_bits <= other.distance_bits
            &&& best.angle_bits == other.angle_bits && best.distance_bits == other.distance_bits
                ==> candidates[i].window.0 <= candidates[j].window.0
        } by {
            assert(score_at(scores, j) == scores[j]);
        }
        assert(candidates[i].window == candidates[i].window);
    } else {
        assert forall|j: int|
            0 <= j < candidates.len() && j < scores.len() implies (#[trigger] scores[j]) is None by {
            if scores[j] is Some {
                assert(score_at(scores, j) is Some);
                let b = some_score_is_best(candidates, scores, candidates.len() as int);
                assert(is_best(candidates, scores, b));
            }
        }
    }
}

/// The candidates are the other windows of the focused window's mode, tiled or floating, each of
/// them once and in the order of their ids, with how far their centres lie from its centre.
pub proof fn candidates_are_of_the_same_mode(ws: workspace::WorkspaceView, focused: WindowId)
    requires
        ws.tiled.dom().finite(),
        ws.floating.dom().finite(),
        ws.focused_window == Some(focused),
    ensures
        ({
            let candidates = ws.focus_candidates();
            &&& forall|i: int, j: int|
                0 <= i < j < candidates.len() ==> (#[trigger] candidates[i]).window.0
                    < (#[trigger] candidates[j]).window.0
            &&& forall|i: int|
                0 <= i < candidates.len() ==> (#[trigger] candidates[i]).window != focused
            &&& ws.tiled.contains_key(focused.0) ==> {
                &&& forall|i: int|
                    0 <= i < candidates.len() ==> {
                        let c = #[trigger] candidates[i];
                        let from = ws.tiled[focused.0].geometry.middle();
                        let to = ws.tiled[c.window.0].geometry.middle();
                        ws.tiled.contains_key(c.window.0) && c.dx == to.x - from.x && c.dy == to.y
                            - from.y
                    }
                &&& forall|id: u64| #[trigger]
                    ws.tiled.contains_key(id) && id != focused.0 ==> exists|i: int|
                        0 <= i < candidates.len() && (#[trigger] candidates[i]).window.0 == id
            }
            &&& !ws.tiled.contains_key(focused.0) && ws.floating.contains_key(focused.0) ==> {
                &&& forall|i: int|
                    0 <= i < candidates.len() ==> {
                        let c = #[trigger] candidates[i];
                        let from = ws.floating[focused.0].viewport.rect.middle();
                        let to = ws.floating[c.window.0].viewport.rect.middle();
                        ws.floating.contains_key(c.window.0) && c.dx == to.x - from.x && c.dy
                            == to.y - from.y
                    }
                &&& forall|id: u64| #[trigger]
                    ws.floating.contains_key(id) && id != focused.0 ==> exists|i: int|
                        0 <= i < candidates.len() && (#[trigger] candidates[i]).window.0 == id
            }
            &&& !ws.tiled.contains_key(focused.0) && !ws.floating.contains_key(focused.0)
                ==> candidates.len() == 0
        }),
{
    let candidates = ws.focus_candidates();
    let ids = ws.neighbours();
    let tiled = ws.tiled.contains_key(focused.0);
    if tiled || ws.floating.contains_key(focused.0) {
        let all = if tiled {
            ws.tiled.dom()
        } else {
            ws.floating.dom()
        };
        ranking::ranking_ranks(all.remove(focused.0), |id: u64| 0);
        assert forall|i: int| 0 <= i < candidates.len() implies all.contains(ids[i]) && ids[i]
            != focused.0 && (#[trigger] candidates[i]).window.0 == ids[i] by {
            assert(ids.to_set().contains(ids[i]));
        }
        assert forall|id: u64| all.contains(id) && id != focused.0 implies exists|i: int|
            0 <= i < candidates.len() && (#[trigger] candidates[i]).window.0 == id by {
            assert(ids.to_set().contains(id));
            let i = choose|i: int| 0 <= i < ids.len() && ids[i] == id;
            assert(candidates[i].window.0 == id);
        }
        assert forall|i: int, j: int| 0 <= i < j < candidates.len() implies (
        #[trigger] candidates[i]).window.0 < (#[trigger] candidates[j]).window.0 by {
            assert(ranking::precedes(0, ids[i], 0, ids[j]));
        }
    }
}

impl desktop::DesktopView {
    /// The desktop after the focus of a workspace has moved in a direction, and the window that
    /// has it now; none where no window lies in that direction. The hint is the direction
    /// normalized, and the scores are those of the candidates in that direction.
    pub open spec fn focused_toward(
        self,
        workspace: WorkspaceId,
        hint: Direction,
        scores: Seq<Option<FocusScore>>,
    ) -> Result<(Self, Option<WindowId>), desktop::DesktopFault> {
        match self.place(workspace) {
            None => Err(desktop::DesktopFault::UnknownWorkspace(workspace)),
            Some(place) => {
                let ws = self.at(place);
                match ws.next_in_direction(scores) {
                    None => Ok((self, None)),
                    Some(target) => {
                        let tiled = ws.mode_of(ws.focused_window->0) == Some(WindowMode::Tiled);
                        let focused = workspace::WorkspaceView {
                            layout_direction_hint: if tiled {
                                hint
                            } else {
                                ws.layout_direction_hint
                            },
                            ..ws.focused(target)
                        };
                        let seen = match self.viewport_at(place) {
                            Some((_, size)) => focused.followed(size),
                            None => focused,
                        };
                        match self.with_at(place, seen).committed() {
                            Err(fault) => Err(fault),
                            Ok(after) => Ok((after, Some(target))),
                        }
                    },
                }
            },
        }
    }
}

/// The centre of a tiled or floating window, if there is such a window.
fn center_in_mode(ws: &Workspace, id: u64, tiled: bool) -> (r: Option<Point>)
    ensures
        match r {
            Some(center) => (if tiled {
                ws@.tiled.contains_key(id)
            } else {
                ws@.floating.contains_key(id)
            }) && center == ws@.center_of(id, tiled),
            None => !(if tiled {
                ws@.tiled.contains_key(id)
            } else {
                ws@.floating.contains_key(id)
            }),
        },
{
    if tiled {
        match ws.tiled.get(id) {
            Some(window) => Some(window.geometry.center()),
            None => None,
        }
    } else {
        match ws.floating.get(id) {
            Some(placement) => Some(placement.viewport.rect.center()),
            None => None,
        }
    }
}

/// The ids of a list but for one of them.
fn others(ids: &Vec<u64>, id: u64) -> (r: Vec<u64>)
    requires
        id_map::ascend(ids@),
        ids@.contains(id),
    ensures
        r@ == ranking::ascending(ids@.to_set().remove(id)),
        forall|x: u64| r@.contains(x) ==> ids@.contains(x),
{
    let mut r: Vec<u64> = Vec::new();
    let mut i: usize = 0;
    let ghost place = choose|p: int| 0 <= p < ids@.len() && ids@[p] == id;
    while i < ids.len()
        invariant
            i <= ids@.len(),
            id_map::ascend(ids@),
            0 <= place < ids@.len(),
            ids@[place] == id,
            r@ == (if i <= place {
                ids@.take(i as int)
            } else {
                ids@.remove(place).take(i - 1)
            }),
        decreases ids@.len() - i,
    {
        if ids[i] != id {
            r.push(ids[i]);
        } else {
            assert(i == place);
        }
        i = i + 1;
        proof {
            if i <= place {
                assert(r@ =~= ids@.take(i as int));
            } else {
                assert(r@ =~= ids@.remove(place).take(i - 1));
            }
        }
    }
    proof {
        let left = ids@.remove(place);
        assert(r@ =~= left);
        assert forall|a: int, b: int| 0 <= a < b < left.len() implies ranking::precedes(
            0,
            #[trigger] left[a],
            0,
            #[trigger] left[b],
        ) by {
            assert(left[a] == ids@[if a < place { a } else { a + 1 }]);
            assert(left[b] == ids@[if b < place { b } else { b + 1 }]);
        }
        assert(left.to_set() =~= ids@.to_set().remove(id)) by {
            assert forall|x: u64| left.to_set().contains(x) implies ids@.to_set().remove(
                id,
            ).contains(x) by {
                let k = choose|k: int| 0 <= k < left.len() && left[k] == x;
                assert(ids@[if k < place { k } else { k + 1 }] == x);
            }
            assert forall|x: u64| ids@.to_set().remove(id).contains(
                x,
            ) implies left.to_set().contains(x) by {
                let k = choose|k: int| 0 <= k < ids@.len() && ids@[k] == x;
                assert(left[if k < place { k } else { k - 1 }] == x);
            }
        }
        ranking::ranked_is_ranking(left, |id: u64| 0);
        assert forall|x: u64| r@.contains(x) implies ids@.contains(x) by {
            assert(left.to_set().contains(x));
            assert(ids@.to_set().contains(x));
        }
    }
    r
}

/// The windows that can get the focus from the focused window of a workspace.
pub fn list_focus_candidates(ws: &Workspace) -> (r: Vec<FocusCandidate>)
    ensures
        r@ == ws@.focus_candidates(),
{
    let mut list: Vec<FocusCandidate> = Vec::new();
    let focused: WindowId = match ws.focused_window {
        Some(focused) => focused,
        None => {
            assert(list@ =~= ws@.focus_candidates());
            return list;
        },
    };
    let tiled: bool = match ws.window_mode(focused) {
        Some(WindowMode::Tiled) => true,
        Some(WindowMode::Floating) => false,
        _ => {
            assert(list@ =~= ws@.focus_candidates());
            return list;
        },
    };
    let origin: Point = match center_in_mode(ws, focused.0, tiled) {
        Some(origin) => origin,
        None => {
            return list;
        },
    };
    let ids: Vec<u64> = if tiled {
        ws.tiled.keys()
    } else {
        ws.floating.keys()
    };
    proof {
        assert(ids@.to_set().contains(focused.0));
    }
    let neighbours: Vec<u64> = others(&ids, focused.0);
    let mut i: usize = 0;
    while i < neighbours.len()
        invariant
            i <= neighbours@.len(),
            neighbours@ == ws@.neighbours(),
            ws@.focused_window == Some(focused),
            tiled == (ws@.mode_of(focused) == Some(WindowMode::Tiled)),
            origin == ws@.center_of(focused.0, tiled),
            ids@.to_set() == (if tiled {
                ws@.tiled.dom()
            } else {
                ws@.floating.dom()
            }),
            forall|x: u64| neighbours@.contains(x) ==> ids@.contains(x),
            list@ == ws@.focus_candidates().take(i as int),
        decreases neighbours@.len() - i,
    {
        let id: u64 = neighbours[i];
        proof {
            assert(neighbours@.contains(neighbours@[i as int]));
            assert(ids@.to_set().contains(id));
        }
        match center_in_mode(ws, id, tiled) {
            Some(center) => {
                list.push(
                    FocusCandidate {
                        window: WindowId(id),
                        dx: center.x as i128 - origin.x as i128,
                        dy: center.y as i128 - origin.y as i128,
                    },
                );
            },
            None => {},
        }
        i = i + 1;
        assert(list@ =~= ws@.focus_candidates().take(i as int));
    }
    assert(list@ =~= ws@.focus_candidates());
    list
}

fn is_preferred(a: FocusScore, x: WindowId, b: FocusScore, y: WindowId) -> (r: bool)
    ensures
        r == preferred(a, x, b, y),
{
    a.angle_bits < b.angle_bits || (a.angle_bits == b.angle_bits && (a.distance_bits
        < b.distance_bits || (a.distance_bits == b.distance_bits && x.0 < y.0)))
}

/// The window that gets the focus.
fn choose_next(ws: &Workspace, scores: &[Option<FocusScore>]) -> (r: Option<WindowId>)
    ensures
        r == ws@.next_in_direction(scores@),
{
    let candidates: Vec<FocusCandidate> = list_focus_candidates(ws);
    let mut best: Option<usize> = None;
    let mut i: usize = 0;
    while i < candidates.len() && i < scores.len()
        invariant
            i <= candidates@.len(),
            i <= scores@.len(),
            match best {
                Some(b) => b < i && score_at(scores@, b as int) is Some && forall|j: int|
                    0 <= j < i && (#[trigger] score_at(scores@, j)) is Some ==> !preferred(
                        score_at(scores@, j)->0,
                        candidates@[j].window,
                        score_at(scores@, b as int)->0,
                        candidates@[b as int].window,
                    ),
                None => forall|j: int|
                    0 <= j < i ==> (#[trigger] score_at(scores@, j)) is None,
            },
        decreases candidates@.len() - i,
    {
        assert(score_at(scores@, i as int) == scores@[i as int]);
        match scores[i] {
            Some(score) => {
                match best {
                    Some(b) => {
                        match scores[b] {
                            Some(other) => {
                                if is_preferred(
                                    score,
                                    candidates[i].window,
                                    other,
                                    candidates[b].window,
                                ) {
                                    best = Some(i);
                                }
                            },
                            None => {},
                        }
                    },
                    None => {
                        best = Some(i);
                    },
                }
            },
            None => {},
        }
        i = i + 1;
    }
    match best {
        Some(b) => {
            proof {
                assert(is_best(candidates@, scores@, b as int));
                let c = choose|c: int| is_best(candidates@, scores@, c);
                assert(is_best(candidates@, scores@, c));
                assert(score_at(scores@, c) is Some);
                assert(score_at(scores@, b as int) is Some);
            }
            Some(candidates[b].window)
        },
        None => {
            proof {
                assert forall|c: int| !#[trigger] is_best(candidates@, scores@, c) by {
                    if is_best(candidates@, scores@, c) {
                        assert(score_at(scores@, c) is Some);
                    }
                }
            }
            None
        },
    }
}

impl Desktop {
    /// The windows that can get the focus from the focused window of a workspace.
    pub fn focus_candidates(&self, workspace: WorkspaceId) -> (r: Result<
        Vec<FocusCandidate>,
        DesktopError,
    >)
        ensures
            match self@.place(workspace) {
                Some(place) => r is Ok && r->Ok_0@ == self@.at(place).focus_candidates(),
                None => r is Err && r->Err_0@ == desktop::DesktopFault::UnknownWorkspace(
                    workspace,
                ),
            },
    {
        match self.workspace(workspace) {
            Ok(ws) => Ok(list_focus_candidates(ws)),
            Err(error) => Err(error),
        }
    }

    /// Moves the focus of a workspace in a direction. Floating-point numbers give the normalized
    /// vector of the direction, which a workspace keeps as its hint, and the scores of its
    /// candidates.
    pub fn focus_direction(
        &mut self,
        workspace: WorkspaceId,
        hint: Direction,
        scores: &[Option<FocusScore>],
    ) -> (r: Result<Option<WindowId>, DesktopError>)
        ensures
            match old(self)@.focused_toward(workspace, hint, scores@) {
                Ok((after, target)) => r is Ok && r->Ok_0 == target && final(self)@ == after,
                Err(fault) => r is Err && r->Err_0@ == fault && final(self)@ == old(self)@,
            },
            r matches Ok(Some(target)) ==> {
                let candidates = old(self)@.at(old(self)@.place(workspace)->0).focus_candidates();
                exists|i: int|
                    0 <= i < candidates.len() && i < scores@.len() && (#[trigger] candidates[i]).window
                        == target && scores@[i] is Some && forall|j: int|
                        0 <= j < candidates.len() && j < scores@.len() && (#[trigger] scores@[j]) is Some
                            ==> {
                            let (best, other) = (scores@[i]->0, scores@[j]->0);
                            &&& best.angle_bits <= other.angle_bits
                            &&& best.angle_bits == other.angle_bits ==> best.distance_bits
                                <= other.distance_bits
                            &&& best.angle_bits == other.angle_bits && best.distance_bits
                                == other.distance_bits ==> target.0 <= candidates[j].window.0
                        }
            },
            r matches Ok(None) ==> forall|j: int|
                0 <= j < scores@.len() && j < old(self)@.at(
                    old(self)@.place(workspace)->0,
                ).focus_candidates().len() ==> (#[trigger] scores@[j]) is None,
    {
        proof {
            if let Some(place) = self@.place(workspace) {
                best_scores_win(self@.at(place), scores@);
            }
        }
        let place: (Option<u64>, usize) = match self.find_place(workspace) {
            Some(place) => place,
            None => {
                return Err(DesktopError::UnknownWorkspace(workspace));
            },
        };
        let mut working: Desktop = self.clone();
        let mut ws: Workspace = working.get_at(place).clone();
        let target: WindowId = match choose_next(&ws, scores) {
            Some(target) => target,
            None => {
                return Ok(None);
            },
        };
        let tiled: bool = match ws.focused_window {
            Some(focused) => match ws.window_mode(focused) {
                Some(mode) => mode == WindowMode::Tiled,
                None => false,
            },
            None => false,
        };
        proof {
            if ws@.focused_window is None {
                assert(ws@.focus_candidates().len() == 0);
            }
        }
        ws.focus(target);
        if tiled {
            ws.layout_direction_hint = hint;
        }
        match viewport_of(&working, place) {
            Some((_, size)) => {
                ws.follow_focus(size);
            },
            None => {},
        }
        *working.get_at_mut(place) = ws;
        match working.validate() {
            Ok(()) => {},
            Err(error) => {
                return Err(error);
            },
        }
        *self = working;
        Ok(Some(target))
    }
}

} // verus!
