//! What viewport places keep.

use crate::geometry::{Rect, Size};
use crate::rounding;
use crate::viewport;
use crate::viewport::NormalizedPoint;
use vstd::prelude::*;

verus! {

/// A number of millionths is off by hardly more than a half.
proof fn millionths_are_near(c: int, w: int)
    requires
        0 < c < w <= 100_000,
    ensures
        1 <= viewport::millionths(c, w) <= 1_000_000,
        1000 * (viewport::millionths(c, w) * w - 1_000_000 * c) <= 502 * w,
        1000 * (1_000_000 * c - viewport::millionths(c, w) * w) <= 502 * w,
{
    rounding::small_is_exact(c);
    rounding::small_is_exact(w);
    rounding::quotient_error(c, w);
    let s = rounding::quotient_scale(c, w);
    let q = rounding::quotient(c, w);
    let p = rounding::binary64(q * 1_000_000);
    let m = viewport::millionths(c, w);
    rounding::rounding_error(q * 1_000_000);
    assert(m == (2 * p + s) / (2 * s));
    let rest = (2 * p + s) % (2 * s);
    assert(m * (2 * s) + rest == 2 * p + s && 0 <= rest < 2 * s) by (nonlinear_arith)
        requires
            m == (2 * p + s) / (2 * s),
            rest == (2 * p + s) % (2 * s),
            s >= 1,
    ;
    let ms = m * s;
    assert(m * (2 * s) == 2 * ms) by (nonlinear_arith)
        requires
            ms == m * s,
    ;
    // The three steps that round.
    let (a, b, e) = (ms - p, p - 1_000_000 * q, q * w - c * s);
    assert(2 * a <= s && -2 * a <= s);
    assert(1_000_000 * b <= s && -1_000_000 * b <= s);
    assert(2 * e <= w && -2 * e <= w);
    let off = m * w - 1_000_000 * c;
    assert(off * s == w * a + w * b + 1_000_000 * e) by (nonlinear_arith)
        requires
            off == m * w - 1_000_000 * c,
            ms == m * s,
            a == ms - p,
            b == p - 1_000_000 * q,
            e == q * w - c * s,
    ;
    assert(2 * (w * a) <= w * s && -2 * (w * a) <= w * s) by (nonlinear_arith)
        requires
            2 * a <= s,
            -2 * a <= s,
            w > 0,
    ;
    assert(1_000_000 * (w * b) <= w * s && -1_000_000 * (w * b) <= w * s) by (nonlinear_arith)
        requires
            1_000_000 * b <= s,
            -1_000_000 * b <= s,
            w > 0,
    ;
    assert(1000 * (500_000 * w) <= w * s) by (nonlinear_arith)
        requires
            s >= 0x10_0000_0000_0000,
            w > 0,
    ;
    assert(1000 * (off * s) <= 502 * (w * s) && -1000 * (off * s) <= 502 * (w * s));
    assert(1000 * off <= 502 * w && -1000 * off <= 502 * w) by (nonlinear_arith)
        requires
            1000 * (off * s) <= 502 * (w * s),
            -1000 * (off * s) <= 502 * (w * s),
            s >= 1,
    ;
    assert(1 <= m) by (nonlinear_arith)
        requires
            -1000 * off <= 502 * w,
            off == m * w - 1_000_000 * c,
            0 < c,
            0 < w <= 100_000,
    ;
    assert(m <= 1_000_000) by (nonlinear_arith)
        requires
            1000 * off <= 502 * w,
            off == m * w - 1_000_000 * c,
            c < w,
            0 < w <= 100_000,
    ;
}

/// Millionths that are near a coordinate stand for it.
proof fn near_millionths_return(m: int, c: int, w: int)
    requires
        0 < w <= 100_000,
        0 < c <= w,
        1 <= m <= 1_000_000,
        1000 * (m * w - 1_000_000 * c) <= 502 * w,
        1000 * (1_000_000 * c - m * w) <= 502 * w,
    ensures
        viewport::from_millionths(m, w) == c,
{
    rounding::small_is_exact(w);
    rounding::quotient_error(m, 1_000_000);
    let s = rounding::quotient_scale(m, 1_000_000);
    let q = rounding::quotient(m, 1_000_000);
    assert(q * w >= 0) by (nonlinear_arith)
        requires
            q >= 0,
            w > 0,
    ;
    rounding::rounding_error(q * w);
    let d = rounding::binary64(q * w);
    assert(q * w <= 100_000 * s) by (nonlinear_arith)
        requires
            0 <= q <= s,
            0 < w <= 100_000,
    ;
    let (a, b, off) = (d - q * w, 1_000_000 * q - m * s, m * w - 1_000_000 * c);
    assert(1_000_000 * a <= s && -1_000_000 * a <= s);
    assert(2 * b <= 1_000_000 && -2 * b <= 1_000_000);
    assert(w * b <= s && -(w * b) <= s) by (nonlinear_arith)
        requires
            2 * b <= 1_000_000,
            -2 * b <= 1_000_000,
            0 < w <= 100_000,
            s >= 0x10_0000_0000_0000,
    ;
    assert(off <= 50_200 && -off <= 50_200);
    assert(s * off <= 50_200 * s && -(s * off) <= 50_200 * s) by (nonlinear_arith)
        requires
            off <= 50_200,
            -off <= 50_200,
            s >= 1,
    ;
    assert(1_000_000 * (d - c * s) == 1_000_000 * a + w * b + s * off) by (nonlinear_arith)
        requires
            a == d - q * w,
            b == 1_000_000 * q - m * s,
            off == m * w - 1_000_000 * c,
    ;
    let x = d - c * s;
    assert(4 * x < s && -4 * x < s);
    assert((2 * d + s) / (2 * s) == c) by (nonlinear_arith)
        requires
            x == d - c * s,
            4 * x < s,
            -4 * x < s,
            s >= 1,
    ;
}

/// A coordinate of an extent of no more than a hundred thousand comes back from its millionths.
proof fn coordinates_come_back(c: int, w: int)
    requires
        0 < w <= 100_000,
        0 <= c <= w,
    ensures
        0 <= viewport::millionths(c, w) <= 1_000_000,
        viewport::from_millionths(viewport::millionths(c, w), w) == c,
{
    rounding::small_is_exact(c);
    rounding::small_is_exact(w);
    if c == w {
        near_millionths_return(1_000_000, c, w);
    } else if c > 0 {
        millionths_are_near(c, w);
        near_millionths_return(viewport::millionths(c, w), c, w);
    }
}

/// The centre of a rectangle, where it lies in a viewport of no more than a hundred thousand each
/// way, is found again from its place in proportion.
pub proof fn centers_come_back(rect: Rect, viewport: Size)
    requires
        viewport.valid(),
        viewport.width <= 100_000,
        viewport.height <= 100_000,
        0 <= rect.middle().x <= viewport.width,
        0 <= rect.middle().y <= viewport.height,
    ensures
        NormalizedPoint::of_rect(rect, viewport).placed_in(viewport) == rect.middle(),
{
    coordinates_come_back(rect.middle().x as int, viewport.width as int);
    coordinates_come_back(rect.middle().y as int, viewport.height as int);
}

/// Millionths of an extent stand for a coordinate that is off by hardly more than a half.
proof fn placed_millionths_are_near(m: int, w: int)
    requires
        0 <= m <= 1_000_000,
        0 < w <= 100_000,
    ensures
        0 <= viewport::from_millionths(m, w) <= w,
        1000 * (1_000_000 * viewport::from_millionths(m, w) - m * w) <= 501_000_000,
        1000 * (m * w - 1_000_000 * viewport::from_millionths(m, w)) <= 501_000_000,
{
    let at = viewport::from_millionths(m, w);
    if m == 0 {
        assert(m * w == 0);
    } else {
        rounding::small_is_exact(w);
        rounding::quotient_error(m, 1_000_000);
        let s = rounding::quotient_scale(m, 1_000_000);
        let q = rounding::quotient(m, 1_000_000);
        assert(0 <= q * w <= 100_000 * s) by (nonlinear_arith)
            requires
                0 <= q <= s,
                0 < w <= 100_000,
        ;
        rounding::rounding_error(q * w);
        let d = rounding::binary64(q * w);
        let raw = (2 * d + s) / (2 * s);
        let rest = (2 * d + s) % (2 * s);
        assert(raw * (2 * s) + rest == 2 * d + s && 0 <= rest < 2 * s) by (nonlinear_arith)
            requires
                raw == (2 * d + s) / (2 * s),
                rest == (2 * d + s) % (2 * s),
                s >= 1,
        ;
        let rs = raw * s;
        assert(raw * (2 * s) == 2 * rs) by (nonlinear_arith)
            requires
                rs == raw * s,
        ;
        let (a, b, c) = (rs - d, d - q * w, 1_000_000 * q - m * s);
        assert(2 * a <= s && -2 * a <= s);
        assert(1_000_000 * b <= s && -1_000_000 * b <= s);
        assert(2 * c <= 1_000_000 && -2 * c <= 1_000_000);
        assert(1_000 * (w * c) <= s && -1_000 * (w * c) <= s || s >= 0x10_0000_0000_0000);
        assert(w * c <= 50_000_000_000 && -(w * c) <= 50_000_000_000) by (nonlinear_arith)
            requires
                2 * c <= 1_000_000,
                -2 * c <= 1_000_000,
                0 < w <= 100_000,
        ;
        let off = 1_000_000 * raw - m * w;
        assert(off * s == 1_000_000 * a + 1_000_000 * b + w * c) by (nonlinear_arith)
            requires
                off == 1_000_000 * raw - m * w,
                rs == raw * s,
                a == rs - d,
                b == d - q * w,
                c == 1_000_000 * q - m * s,
        ;
        assert(s >= 0x10_0000_0000_0000);
        assert(1000 * (off * s) <= 501_000_000 * s && -1000 * (off * s) <= 501_000_000 * s);
        assert(1000 * off <= 501_000_000 && -1000 * off <= 501_000_000) by (nonlinear_arith)
            requires
                1000 * (off * s) <= 501_000_000 * s,
                -1000 * (off * s) <= 501_000_000 * s,
                s >= 1,
        ;
        assert(0 <= m * w <= 1_000_000 * w) by (nonlinear_arith)
            requires
                0 <= m <= 1_000_000,
                0 < w,
        ;
        assert(0 <= raw <= w);
        assert(at == raw);
    }
}

/// A coordinate that is carried over from one extent to another by its millionths is where it was in
/// proportion, but for six tenths.
proof fn carried_coordinates_are_near(c: int, w: int, v: int)
    requires
        0 <= c <= w,
        0 < w <= 100_000,
        0 < v <= 100_000,
    ensures
        0 <= viewport::millionths(c, w) <= 1_000_000,
        0 <= viewport::from_millionths(viewport::millionths(c, w), v) <= v,
        10 * (viewport::from_millionths(viewport::millionths(c, w), v) * w - c * v) <= 6 * w,
        10 * (c * v - viewport::from_millionths(viewport::millionths(c, w), v) * w) <= 6 * w,
{
    let m = viewport::millionths(c, w);
    rounding::small_is_exact(c);
    rounding::small_is_exact(w);
    coordinates_come_back(c, w);
    if 0 < c && c < w {
        millionths_are_near(c, w);
    } else if c == 0 {
        assert(m == 0);
        assert(m * w == 0 && 1_000_000 * c == 0);
    } else {
        assert(m == 1_000_000);
        assert(m * w - 1_000_000 * c == 0);
    }
    placed_millionths_are_near(m, v);
    let at = viewport::from_millionths(m, v);
    let (e, f) = (m * w - 1_000_000 * c, 1_000_000 * at - m * v);
    assert(1000 * e <= 502 * w && -1000 * e <= 502 * w);
    assert(f <= 501_000 && -f <= 501_000);
    assert(1_000_000 * (at * w - c * v) == f * w + e * v) by (nonlinear_arith)
        requires
            e == m * w - 1_000_000 * c,
            f == 1_000_000 * at - m * v,
    ;
    assert(f * w <= 501_000 * w && -(f * w) <= 501_000 * w) by (nonlinear_arith)
        requires
            f <= 501_000,
            -f <= 501_000,
            w > 0,
    ;
    assert(1000 * (e * v) <= 50_200_000 * w && -1000 * (e * v) <= 50_200_000 * w)
        by (nonlinear_arith)
        requires
            1000 * e <= 502 * w,
            -1000 * e <= 502 * w,
            0 < v <= 100_000,
            w > 0,
    ;
}

/// Whether a start on an axis of extent `after` is where a rectangle of that length belongs whose
/// centre was at `center` on an axis of extent `before`: in proportion but for six tenths, or at an
/// end of the axis where it would lie beyond that.
pub open spec fn in_proportion(start: int, length: int, center: int, before: int, after: int) -> bool {
    let wanted = center * after - (length / 2) * before;
    ||| 10 * (start * before - wanted) <= 6 * before && 10 * (wanted - start * before) <= 6 * before
    ||| start == 0 && 10 * wanted <= 6 * before
    ||| start == after - length && 10 * (wanted - start * before) >= -6 * before
}

proof fn axes_are_put_in_proportion(length: int, center: int, before: int, after: int)
    requires
        0 <= center <= before,
        0 < before <= 100_000,
        0 < after <= 100_000,
        0 <= length <= after,
    ensures
        ({
            let at = viewport::from_millionths(viewport::millionths(center, before), after);
            let start = viewport::clamped(at - length / 2, 0, after - length);
            &&& 0 <= viewport::millionths(center, before) <= 1_000_000
            &&& 0 <= at <= after
            &&& 0 <= start <= after - length
            &&& in_proportion(start, length, center, before, after)
        }),
{
    carried_coordinates_are_near(center, before, after);
    let at = viewport::from_millionths(viewport::millionths(center, before), after);
    let half = length / 2;
    let free = at - half;
    let wanted = center * after - half * before;
    assert(free * before - wanted == at * before - center * after) by (nonlinear_arith)
        requires
            free == at - half,
            wanted == center * after - half * before,
    ;
    let start = viewport::clamped(free, 0, after - length);
    if free < 0 {
        assert(free * before <= 0) by (nonlinear_arith)
            requires
                free < 0,
                before > 0,
        ;
    } else if free > after - length {
        assert(free * before >= start * before) by (nonlinear_arith)
            requires
                free > start,
                before > 0,
        ;
    }
}

/// A floating window whose output changes its size lies wholly inside the new viewport, where it
/// fits into it. It keeps its size, and its centre keeps its place in proportion, as far as the edges
/// of the viewport let it. The place that is remembered for the output is the new one.
pub proof fn resized_outputs_keep_proportions(
    place: viewport::ViewportView,
    key: Seq<char>,
    before: Size,
    after: Size,
)
    requires
        before.valid(),
        after.valid(),
        0 <= place.rect.size.width <= after.width,
        0 <= place.rect.size.height <= after.height,
    ensures
        ({
            let rect = place.remapped(key, before, after).rect;
            &&& rect.size == place.rect.size
            &&& 0 <= rect.origin.x && rect.origin.x + rect.size.width <= after.width
            &&& 0 <= rect.origin.y && rect.origin.y + rect.size.height <= after.height
            &&& before.width <= 100_000 && after.width <= 100_000 && 0 <= place.rect.middle().x
                <= before.width ==> in_proportion(
                rect.origin.x as int,
                rect.size.width as int,
                place.rect.middle().x as int,
                before.width as int,
                after.width as int,
            )
            &&& before.height <= 100_000 && after.height <= 100_000 && 0 <= place.rect.middle().y
                <= before.height ==> in_proportion(
                rect.origin.y as int,
                rect.size.height as int,
                place.rect.middle().y as int,
                before.height as int,
                after.height as int,
            )
            &&& place.remapped(key, before, after).output_rects == place.output_rects.insert(
                key,
                rect,
            )
        }),
{
    let middle = place.rect.middle();
    let size = place.rect.size;
    if before.width <= 100_000 && after.width <= 100_000 && 0 <= middle.x <= before.width {
        axes_are_put_in_proportion(
            size.width as int,
            middle.x as int,
            before.width as int,
            after.width as int,
        );
    }
    if before.height <= 100_000 && after.height <= 100_000 && 0 <= middle.y <= before.height {
        axes_are_put_in_proportion(
            size.height as int,
            middle.y as int,
            before.height as int,
            after.height as int,
        );
    }
    let rect = place.remapped(key, before, after).rect;
    assert(rect.size == size);
    assert(0 <= rect.origin.x && rect.origin.x + size.width <= after.width);
    assert(0 <= rect.origin.y && rect.origin.y + size.height <= after.height);
    assert(place.remapped(key, before, after).output_rects =~= place.output_rects.insert(
        key,
        place.remapped(key, before, after).rect,
    ));
}

/// A floating window that comes to an output on which it has not been lies wholly inside the
/// viewport of that output, where it fits into it, and its centre has the same place in proportion as
/// it had on the output that it left. On an output on which it has been it has the rectangle that it
/// had there, where that lies inside the viewport. The rectangle that it left is remembered.
pub proof fn migrating_windows_keep_proportions(
    place: viewport::ViewportView,
    source: Seq<char>,
    before: Size,
    key: Seq<char>,
    after: Size,
)
    requires
        before.valid(),
        after.valid(),
        source != key,
        0 <= place.rect.size.width <= after.width,
        0 <= place.rect.size.height <= after.height,
    ensures
        ({
            let moved = place.migrated(Some((source, before)), key, after);
            let rect = moved.rect;
            &&& moved.output_rects.contains_key(source) && moved.output_rects[source] == place.rect
            &&& moved.output_rects.contains_key(key) && moved.output_rects[key] == rect
            &&& forall|other: Seq<char>|
                other != source && other != key ==> (#[trigger] moved.output_rects.contains_key(
                    other,
                ) <==> place.output_rects.contains_key(other)) && moved.output_rects[other]
                    == place.output_rects[other]
            &&& !place.output_rects.contains_key(key) ==> {
                &&& rect.size == place.rect.size
                &&& 0 <= rect.origin.x && rect.origin.x + rect.size.width <= after.width
                &&& 0 <= rect.origin.y && rect.origin.y + rect.size.height <= after.height
                &&& before.width <= 100_000 && after.width <= 100_000 && 0 <= place.rect.middle().x
                    <= before.width ==> in_proportion(
                    rect.origin.x as int,
                    rect.size.width as int,
                    place.rect.middle().x as int,
                    before.width as int,
                    after.width as int,
                )
                &&& before.height <= 100_000 && after.height <= 100_000 && 0
                    <= place.rect.middle().y <= before.height ==> in_proportion(
                    rect.origin.y as int,
                    rect.size.height as int,
                    place.rect.middle().y as int,
                    before.height as int,
                    after.height as int,
                )
            }
            &&& place.output_rects.contains_key(key) ==> {
                let known = place.output_rects[key];
                &&& rect.size == known.size
                &&& 0 <= known.origin.x && known.origin.x + known.size.width <= after.width
                    ==> rect.origin.x == known.origin.x
                &&& 0 <= known.origin.y && known.origin.y + known.size.height <= after.height
                    ==> rect.origin.y == known.origin.y
                &&& 0 <= known.size.width <= after.width ==> 0 <= rect.origin.x && rect.origin.x
                    + rect.size.width <= after.width
                &&& 0 <= known.size.height <= after.height ==> 0 <= rect.origin.y && rect.origin.y
                    + rect.size.height <= after.height
            }
        }),
{
    let middle = place.rect.middle();
    let size = place.rect.size;
    if before.width <= 100_000 && after.width <= 100_000 && 0 <= middle.x <= before.width {
        axes_are_put_in_proportion(
            size.width as int,
            middle.x as int,
            before.width as int,
            after.width as int,
        );
    }
    if before.height <= 100_000 && after.height <= 100_000 && 0 <= middle.y <= before.height {
        axes_are_put_in_proportion(
            size.height as int,
            middle.y as int,
            before.height as int,
            after.height as int,
        );
    }
    let moved = place.migrated(Some((source, before)), key, after);
    let rect = moved.rect;
    if !place.output_rects.contains_key(key) {
        assert(rect.size == size);
        assert(0 <= rect.origin.x && rect.origin.x + size.width <= after.width);
        assert(0 <= rect.origin.y && rect.origin.y + size.height <= after.height);
    }
}

/// A floating rectangle that is moved into a viewport keeps its size. On each axis it stays where
/// it is, where it lies inside; else, where it fits, it goes to the nearer edge and no farther.
pub proof fn clamping_moves_least(rect: Rect, viewport: Size)
    ensures
        ({
            let to = viewport::clamped_rect(rect, viewport);
            &&& to.size == rect.size
            &&& 0 <= rect.origin.x && rect.origin.x + rect.size.width <= viewport.width
                ==> to.origin.x == rect.origin.x
            &&& 0 <= rect.origin.y && rect.origin.y + rect.size.height <= viewport.height
                ==> to.origin.y == rect.origin.y
            &&& rect.origin.x < 0 ==> to.origin.x == 0
            &&& rect.origin.y < 0 ==> to.origin.y == 0
            &&& rect.origin.x >= 0 && rect.size.width <= viewport.width && rect.origin.x
                + rect.size.width > viewport.width ==> to.origin.x + rect.size.width
                == viewport.width
            &&& rect.origin.y >= 0 && rect.size.height <= viewport.height && rect.origin.y
                + rect.size.height > viewport.height ==> to.origin.y + rect.size.height
                == viewport.height
            &&& rect.size.width > viewport.width ==> to.origin.x == 0
            &&& rect.size.height > viewport.height ==> to.origin.y == 0
        }),
{
}

/// The place of a floating window is in millionths of its viewport: none before the left or upper
/// edge, all of them beyond the right or lower one, and in between, where the viewport has no more
/// than a hundred thousand each way, as many as its part of the extent, but for a little more than a
/// half.
pub proof fn millionths_measure(rect: Rect, size: Size)
    requires
        size.valid(),
        size.width <= 100_000,
        size.height <= 100_000,
    ensures
        ({
            let point = NormalizedPoint::of_rect(rect, size);
            let center = rect.middle();
            &&& center.x <= 0 ==> point.x_millionths == 0
            &&& center.y <= 0 ==> point.y_millionths == 0
            &&& 0x1_0000_0000_0000 > center.x >= size.width ==> point.x_millionths == 1_000_000
            &&& 0x1_0000_0000_0000 > center.y >= size.height ==> point.y_millionths == 1_000_000
            &&& 0 < center.x < size.width ==> 1000 * (point.x_millionths * size.width - 1_000_000
                * center.x) <= 502 * size.width && 1000 * (1_000_000 * center.x
                - point.x_millionths * size.width) <= 502 * size.width
            &&& 0 < center.y < size.height ==> 1000 * (point.y_millionths * size.height - 1_000_000
                * center.y) <= 502 * size.height && 1000 * (1_000_000 * center.y
                - point.y_millionths * size.height) <= 502 * size.height
        }),
{
    let center = rect.middle();
    rounding::small_is_exact(size.width as int);
    rounding::small_is_exact(size.height as int);
    if center.x >= size.width && center.x < 0x1_0000_0000_0000 {
        rounding::small_is_exact(center.x as int);
    }
    if center.y >= size.height && center.y < 0x1_0000_0000_0000 {
        rounding::small_is_exact(center.y as int);
    }
    if 0 < center.x < size.width {
        millionths_are_near(center.x as int, size.width as int);
    }
    if 0 < center.y < size.height {
        millionths_are_near(center.y as int, size.height as int);
    }
}

/// A place is remembered for every output that the window was on: what it was on the output that
/// it leaves, what it is on the one that it is on now, and what it was on any other.
pub proof fn places_on_other_outputs_are_kept(
    place: viewport::ViewportView,
    source: Option<(Seq<char>, Size)>,
    key: Seq<char>,
    before: Size,
    after: Size,
    other: Seq<char>,
)
    requires
        other != key,
        source matches Some((left, _)) ==> left != key,
    ensures
        ({
            let moved = place.migrated(source, key, after);
            let resized = place.remapped(key, before, after);
            let stored = place.stored(key, after);
            &&& stored.rect == place.rect && stored.output_rects[key] == place.rect
            &&& moved.output_rects.contains_key(key) && moved.output_rects[key] == moved.rect
            &&& resized.output_rects.contains_key(key) && resized.output_rects[key] == resized.rect
            &&& source matches Some((left, _)) ==> moved.output_rects.contains_key(left)
                && moved.output_rects[left] == place.rect
            &&& source is None || (source->0).0 != other ==> (moved.output_rects.contains_key(other)
                <==> place.output_rects.contains_key(other)) && moved.output_rects[other]
                == place.output_rects[other]
            &&& (resized.output_rects.contains_key(other) <==> place.output_rects.contains_key(
                other,
            )) && resized.output_rects[other] == place.output_rects[other]
            &&& (stored.output_rects.contains_key(other) <==> place.output_rects.contains_key(
                other,
            )) && stored.output_rects[other] == place.output_rects[other]
            &&& moved.rect.size == place.rect.size || place.output_rects.contains_key(key)
        }),
{
}

} // verus!
