//! What centres and gaps are, told by the points of rectangles.

use crate::geometry;
use crate::geometry::{Point, Rect, Size};
use crate::ranking;
use vstd::math::abs;
use vstd::prelude::*;

verus! {

/// Whether a rectangle has a point.
pub open spec fn covers(rect: Rect, x: int, y: int) -> bool {
    &&& rect.origin.x <= x < rect.origin.x + rect.size.width
    &&& rect.origin.y <= y < rect.origin.y + rect.size.height
}

/// The centre of a rectangle is one of its points, as far from its left and upper edges as from the
/// others, but for one where its extent is odd.
pub proof fn centres_are_in_the_middle(rect: Rect)
    requires
        rect.size.valid(),
        rect.origin.x + rect.size.width <= i64::MAX,
        rect.origin.y + rect.size.height <= i64::MAX,
    ensures
        ({
            let c = rect.middle();
            let (right, bottom) = (
                rect.origin.x + rect.size.width,
                rect.origin.y + rect.size.height,
            );
            &&& covers(rect, c.x as int, c.y as int)
            &&& 0 <= (right - c.x) - (c.x - rect.origin.x) <= 1
            &&& 0 <= (bottom - c.y) - (c.y - rect.origin.y) <= 1
        }),
{
}

/// A rectangle that is put around a point has its size and the point in its middle.
pub proof fn rectangles_surround_their_centres(center: Point, size: Size)
    requires
        size.valid(),
        i64::MIN <= center.x - size.width,
        i64::MIN <= center.y - size.height,
    ensures
        ({
            let rect = Rect::around(center, size);
            &&& rect.size == size
            &&& covers(rect, center.x as int, center.y as int)
            &&& 0 <= (rect.origin.x + size.width - center.x) - (center.x - rect.origin.x) <= 1
            &&& 0 <= (rect.origin.y + size.height - center.y) - (center.y - rect.origin.y) <= 1
        }),
{
}

/// Two rectangles conflict just when a point of one is no farther than the gap from a point of the
/// other on both axes. Without a gap, that is when they have a point in common.
pub proof fn conflicts_are_near_points(a: Rect, b: Rect, gap: int)
    requires
        a.size.valid(),
        b.size.valid(),
    ensures
        gap >= 0 ==> (a.conflicting(b, gap) <==> exists|px: int, py: int, qx: int, qy: int|
            #[trigger]
            covers(a, px, py) && #[trigger] covers(b, qx, qy) && abs(px - qx) <= gap && abs(
                py - qy,
            ) <= gap),
        gap <= 0 ==> (a.conflicting(b, gap) <==> exists|x: int, y: int| #[trigger]
            covers(a, x, y) && covers(b, x, y)),
{
    let (al, ar) = (a.origin.x as int, a.origin.x + a.size.width - 1);
    let (at, ab) = (a.origin.y as int, a.origin.y + a.size.height - 1);
    let (bl, br) = (b.origin.x as int, b.origin.x + b.size.width - 1);
    let (bt, bb) = (b.origin.y as int, b.origin.y + b.size.height - 1);
    if a.conflicting(b, gap) {
        let px = if ar < bl {
            ar
        } else if al > bl {
            al
        } else {
            bl
        };
        let qx = if px > br {
            br
        } else if px < bl {
            bl
        } else {
            px
        };
        let py = if ab < bt {
            ab
        } else if at > bt {
            at
        } else {
            bt
        };
        let qy = if py > bb {
            bb
        } else if py < bt {
            bt
        } else {
            py
        };
        assert(covers(a, px, py) && covers(b, qx, qy));
        if gap >= 0 {
            assert(abs(px - qx) <= gap && abs(py - qy) <= gap);
        }
        if gap <= 0 {
            assert(px == qx && py == qy);
        }
    }
    if gap >= 0 && exists|px: int, py: int, qx: int, qy: int| #[trigger]
        covers(a, px, py) && #[trigger] covers(b, qx, qy) && abs(px - qx) <= gap && abs(py - qy)
            <= gap {
        let (px, py, qx, qy) = choose|px: int, py: int, qx: int, qy: int| #[trigger]
            covers(a, px, py) && #[trigger] covers(b, qx, qy) && abs(px - qx) <= gap && abs(py - qy)
                <= gap;
        assert(a.conflicting(b, gap));
    }
    if gap <= 0 && exists|x: int, y: int| #[trigger] covers(a, x, y) && covers(b, x, y) {
        let (x, y) = choose|x: int, y: int| #[trigger] covers(a, x, y) && covers(b, x, y);
        assert(a.conflicting(b, gap));
    }
}

/// A coordinate beyond the canvas is taken for the nearest one that is on it, and one on it for
/// itself.
pub proof fn coordinates_are_kept_on_the_canvas(v: int)
    ensures
        i64::MIN <= geometry::saturated(v) <= i64::MAX,
        i64::MIN <= v <= i64::MAX ==> geometry::saturated(v) == v,
        forall|w: int|
            i64::MIN <= w <= i64::MAX ==> abs(geometry::saturated(v) - v) <= #[trigger] abs(w - v),
{
}

/// Ids in ascending order are each listed once, the smaller before the larger.
pub proof fn ascending_ids_ascend(ids: Set<u64>)
    requires
        ids.finite(),
    ensures
        ranking::ascending(ids).to_set() == ids,
        forall|i: int, j: int|
            0 <= i < j < ranking::ascending(ids).len() ==> #[trigger] ranking::ascending(ids)[i]
                < #[trigger] ranking::ascending(ids)[j],
{
    ranking::ranking_ranks(ids, |id: u64| 0);
    let list = ranking::ascending(ids);
    assert forall|i: int, j: int| 0 <= i < j < list.len() implies #[trigger] list[i]
        < #[trigger] list[j] by {
        assert(ranking::precedes(0, list[i], 0, list[j]));
    }
}

} // verus!
