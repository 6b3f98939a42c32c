//! Places inside a viewport, and how they carry over from one output to another.

use crate::geometry;
use crate::geometry::{saturate, Point, Rect, Size};
use crate::rounding;
use crate::rounding::{divide, round_binary64, round_coordinate};
use crate::text::TextMap;
use vstd::prelude::*;

verus! {

/// A point of a viewport, in millionths of its width and height.
#[derive(Clone, Copy, Debug, Eq, PartialEq, Structural)]
pub struct NormalizedPoint {
    pub x_millionths: u32,
    pub y_millionths: u32,
}

/// How many millionths of `extent` lie before `value`, computed in binary64 numbers: the
/// quotient, brought into the range from zero to one, times a million, to the nearest integer.
/// An extent that is not positive has its middle there.
pub open spec fn millionths(value: int, extent: int) -> int {
    if extent <= 0 {
        500_000
    } else if value <= 0 {
        0
    } else {
        let v = rounding::binary64(value);
        let e = rounding::binary64(extent);
        if v >= e {
            1_000_000
        } else {
            rounding::nearest_up(
                rounding::binary64(rounding::quotient(v, e) * 1_000_000),
                rounding::quotient_scale(v, e),
            )
        }
    }
}

/// The coordinate that lies `millionths` of `extent` from the start, computed in binary64
/// numbers.
pub open spec fn from_millionths(millionths: int, extent: int) -> int {
    if millionths == 0 {
        0
    } else {
        let w = rounding::binary64(if extent < 0 {
            -extent
        } else {
            extent
        });
        let distance = rounding::nearest_up(
            rounding::binary64(rounding::quotient(millionths, 1_000_000) * w),
            rounding::quotient_scale(millionths, 1_000_000),
        );
        geometry::saturated(if extent < 0 {
            -distance
        } else {
            distance
        })
    }
}

/// The nearest integer to `n / d`.
fn round_up(n: u128, d: u128) -> (r: u128)
    requires
        0 < d <= 0x1000_0000_0000_0000_0000_0000_0000_0000,
        n < 0x1000_0000_0000_0000_0000_0000_0000_0000,
    ensures
        r == rounding::nearest_up(n as int, d as int),
        r <= n + 1,
{
    let r: u128 = (2 * n + d) / (2 * d);
    assert(r <= n + 1) by (nonlinear_arith)
        requires
            r == (2 * n + d) as int / (2 * d) as int,
            d > 0,
    ;
    r
}

proof fn million_bound(q: int, s: int, v: int, e: int, product: int)
    requires
        0 < v < e,
        s >= 1,
        q == rounding::nearest_even(v * s, e),
        product == q * 1_000_000,
    ensures
        0 <= q <= s,
{
    let n = v * s;
    let d = n / e;
    assert(n < e * s && 0 <= n) by (nonlinear_arith)
        requires
            n == v * s,
            0 < v < e,
            s >= 1,
    ;
    assert(0 <= d < s && n % e == n - d * e && 0 <= n % e < e) by (nonlinear_arith)
        requires
            d == n / e,
            n < e * s,
            0 <= n,
            e > 0,
    ;
}

fn normalize_axis(value: i64, extent: i64) -> (r: u32)
    ensures
        r == millionths(value as int, extent as int),
        r <= 1_000_000,
{
    if extent <= 0 {
        return 500_000;
    }
    if value <= 0 {
        return 0;
    }
    let v: i128 = round_coordinate(value);
    let e: i128 = round_coordinate(extent);
    proof {
        rounding::positive_stays_positive(value as int);
        rounding::positive_stays_positive(extent as int);
        rounding::coordinate_bound(value as int);
        rounding::coordinate_bound(extent as int);
    }
    if v >= e {
        return 1_000_000;
    }
    let (q, s): (u64, u128) = divide(v as u64, e as u64);
    proof {
        million_bound(q as int, s as int, v as int, e as int, q * 1_000_000);
    }
    let product: i128 = round_binary64(q as i128 * 1_000_000);
    proof {
        rounding::rounding_bound(q * 1_000_000);
        rounding::positive_stays_positive(q * 1_000_000);
        if q == 0 {
            rounding::zero_stays_zero();
        }
        assert(e <= 0x8000_0000_0000_0000);
        assert(s <= 0x8000_0000_0000_0000 * 0x20_0000_0000_0000) by (nonlinear_arith)
            requires
                s <= e * 0x20_0000_0000_0000,
                e <= 0x8000_0000_0000_0000,
        ;
    }
    let r: u128 = round_up(product as u128, s);
    proof {
        rounding::rounding_error(q * 1_000_000);
        assert(1_000_000 * (product - q * 1_000_000) <= s);
        assert(r <= 1_000_000) by (nonlinear_arith)
            requires
                r == (2 * product + s) / (2 * s as int),
                1_000_000 * (product - q * 1_000_000) <= s,
                q <= s,
                s >= 1,
        ;
    }
    r as u32
}

fn place_axis(millionths: u32, extent: i64) -> (r: i64)
    ensures
        r == from_millionths(millionths as int, extent as int),
{
    if millionths == 0 {
        return 0;
    }
    let (q, s): (u64, u128) = divide(millionths as u64, 1_000_000);
    let magnitude: i128 = if extent < 0 {
        -(extent as i128)
    } else {
        extent as i128
    };
    let w: i128 = round_binary64(magnitude);
    assert(w >= 0) by {
        if magnitude > 0 {
            rounding::positive_stays_positive(magnitude as int);
        } else {
            rounding::zero_stays_zero();
        }
    }
    assert(0 <= q * w <= 0x20_0000_0000_0000 * 0x1_0000_0000_0000_0000) by (nonlinear_arith)
        requires
            0 <= q <= 0x20_0000_0000_0000,
            0 <= w <= 0x1_0000_0000_0000_0000,
    ;
    let exact: i128 = q as i128 * w;
    let product: i128 = round_binary64(exact);
    assert(product >= 0) by {
        if exact > 0 {
            rounding::positive_stays_positive(exact as int);
        } else {
            rounding::zero_stays_zero();
        }
    }
    let distance: i128 = round_up(product as u128, s) as i128;
    if extent < 0 {
        saturate(-distance)
    } else {
        saturate(distance)
    }
}

impl NormalizedPoint {
    pub open spec fn of_rect(rect: Rect, viewport: Size) -> Self {
        NormalizedPoint {
            x_millionths: millionths(rect.middle().x as int, viewport.width as int) as u32,
            y_millionths: millionths(rect.middle().y as int, viewport.height as int) as u32,
        }
    }

    /// Where the centre of `rect` lies in the viewport.
    pub fn from_rect(rect: Rect, viewport: Size) -> (r: Self)
        ensures
            r == Self::of_rect(rect, viewport),
            r.x_millionths == millionths(rect.middle().x as int, viewport.width as int),
            r.y_millionths == millionths(rect.middle().y as int, viewport.height as int),
            r.x_millionths <= 1_000_000,
            r.y_millionths <= 1_000_000,
    {
        let center: Point = rect.center();
        let x: u32 = normalize_axis(center.x, viewport.width);
        let y: u32 = normalize_axis(center.y, viewport.height);
        NormalizedPoint { x_millionths: x, y_millionths: y }
    }

    pub open spec fn placed_in(self, viewport: Size) -> Point {
        Point {
            x: from_millionths(self.x_millionths as int, viewport.width as int) as i64,
            y: from_millionths(self.y_millionths as int, viewport.height as int) as i64,
        }
    }

    /// The point of the viewport that this point stands for.
    pub fn center_in(self, viewport: Size) -> (r: Point)
        ensures
            r == self.placed_in(viewport),
    {
        Point {
            x: place_axis(self.x_millionths, viewport.width),
            y: place_axis(self.y_millionths, viewport.height),
        }
    }
}

/// `v`, or the nearer end of the range from `low` to `high` where it lies outside.
pub open spec fn clamped(v: int, low: int, high: int) -> int {
    if v < low {
        low
    } else if v > high {
        high
    } else {
        v
    }
}

/// The larger of `v` and zero.
pub open spec fn not_negative(v: int) -> int {
    if v > 0 {
        v
    } else {
        0
    }
}

/// `rect` moved into the viewport as far as it fits, its origin inside in any case.
pub open spec fn clamped_rect(rect: Rect, viewport: Size) -> Rect {
    rect.moved_to(
        Point {
            x: clamped(
                rect.origin.x as int,
                0,
                not_negative(viewport.width - rect.size.width),
            ) as i64,
            y: clamped(
                rect.origin.y as int,
                0,
                not_negative(viewport.height - rect.size.height),
            ) as i64,
        },
    )
}

fn clamp_axis(origin: i64, length: i64, extent: i64) -> (r: i64)
    ensures
        r == clamped(origin as int, 0, not_negative(extent - length)),
{
    let room: i128 = extent as i128 - length as i128;
    let room: i128 = if room > 0 {
        room
    } else {
        0
    };
    if origin < 0 {
        0
    } else if origin as i128 > room {
        room as i64
    } else {
        origin
    }
}

/// Moves a rectangle into the viewport as far as it fits.
pub fn clamp_to_viewport(rect: Rect, viewport: Size) -> (r: Rect)
    ensures
        r == clamped_rect(rect, viewport),
{
    let x: i64 = clamp_axis(rect.origin.x, rect.size.width, viewport.width);
    let y: i64 = clamp_axis(rect.origin.y, rect.size.height, viewport.height);
    rect.translated(x, y)
}

/// A rectangle that fits into the viewport lies inside it once it has been clamped.
pub proof fn clamped_rect_fits(rect: Rect, viewport: Size)
    requires
        0 <= rect.size.width <= viewport.width,
        0 <= rect.size.height <= viewport.height,
    ensures
        clamped_rect(rect, viewport).size == rect.size,
        0 <= clamped_rect(rect, viewport).origin.x,
        0 <= clamped_rect(rect, viewport).origin.y,
        clamped_rect(rect, viewport).origin.x + rect.size.width <= viewport.width,
        clamped_rect(rect, viewport).origin.y + rect.size.height <= viewport.height,
{
}

/// The place of a floating window: its rectangle on the output that shows it, the same in
/// proportion to that output, and the rectangles that it had on each output.
#[derive(Debug, Eq, PartialEq)]
pub struct ViewportPlacement {
    pub rect: Rect,
    pub normalized_center: NormalizedPoint,
    pub output_rects: TextMap<Rect>,
}

#[verifier::ext_equal]
pub struct ViewportView {
    pub rect: Rect,
    pub normalized_center: NormalizedPoint,
    pub output_rects: Map<Seq<char>, Rect>,
}

impl View for ViewportPlacement {
    type V = ViewportView;

    open spec fn view(&self) -> ViewportView {
        ViewportView {
            rect: self.rect,
            normalized_center: self.normalized_center,
            output_rects: self.output_rects@,
        }
    }
}

impl Clone for ViewportPlacement {
    fn clone(&self) -> (r: Self)
        ensures
            r@ == self@,
    {
        ViewportPlacement {
            rect: self.rect,
            normalized_center: self.normalized_center,
            output_rects: self.output_rects.clone(),
        }
    }
}

impl ViewportView {
    pub open spec fn fresh(rect: Rect, viewport: Size) -> Self {
        ViewportView {
            rect,
            normalized_center: NormalizedPoint::of_rect(rect, viewport),
            output_rects: Map::empty(),
        }
    }

    /// The place with its rectangle remembered for the output `key` of that size.
    pub open spec fn stored(self, key: Seq<char>, size: Size) -> Self {
        ViewportView {
            rect: self.rect,
            normalized_center: NormalizedPoint::of_rect(self.rect, size),
            output_rects: self.output_rects.insert(key, self.rect),
        }
    }

    /// The place with its rectangle put where the normalised centre lies in a viewport.
    pub open spec fn proportioned(self, size: Size) -> Self {
        ViewportView {
            rect: clamped_rect(
                Rect::around(self.normalized_center.placed_in(size), self.rect.size),
                size,
            ),
            ..self
        }
    }

    /// The place as it was left on the output `source` and is taken up on the output `key`: the
    /// rectangle that it had there before, or one in proportion.
    pub open spec fn migrated(
        self,
        source: Option<(Seq<char>, Size)>,
        key: Seq<char>,
        size: Size,
    ) -> Self {
        let left = match source {
            Some((source_key, source_size)) => self.stored(source_key, source_size),
            None => self,
        };
        let placed = if left.output_rects.contains_key(key) {
            ViewportView { rect: clamped_rect(left.output_rects[key], size), ..left }
        } else {
            left.proportioned(size)
        };
        placed.stored(key, size)
    }

    /// The place after its output changed its size.
    pub open spec fn remapped(self, key: Seq<char>, before: Size, after: Size) -> Self {
        self.stored(key, before).proportioned(after).stored(key, after)
    }

    /// The place after a change.
    pub open spec fn changed(self, change: ChangeView) -> Self {
        match change {
            ChangeView::Store { key, size } => self.stored(key, size),
            ChangeView::Migrate { source, key, size } => self.migrated(source, key, size),
            ChangeView::Remap { key, before, after } => self.remapped(key, before, after),
        }
    }
}

/// What happens to the viewport places of a workspace.
pub enum ViewportChange {
    /// The output that shows it remembers each rectangle.
    Store { key: String, size: Size },
    /// The workspace goes from one output, if it had any, to another.
    Migrate { source: Option<(String, Size)>, key: String, size: Size },
    /// The output that shows it changes its size.
    Remap { key: String, before: Size, after: Size },
}

pub enum ChangeView {
    Store { key: Seq<char>, size: Size },
    Migrate { source: Option<(Seq<char>, Size)>, key: Seq<char>, size: Size },
    Remap { key: Seq<char>, before: Size, after: Size },
}

/// The key and size of an output, if there is one.
pub open spec fn source_of(source: Option<(String, Size)>) -> Option<(Seq<char>, Size)> {
    match source {
        Some((key, size)) => Some((key@, size)),
        None => None,
    }
}

impl View for ViewportChange {
    type V = ChangeView;

    open spec fn view(&self) -> ChangeView {
        match self {
            ViewportChange::Store { key, size } => ChangeView::Store { key: key@, size: *size },
            ViewportChange::Migrate { source, key, size } => ChangeView::Migrate {
                source: source_of(*source),
                key: key@,
                size: *size,
            },
            ViewportChange::Remap { key, before, after } => ChangeView::Remap {
                key: key@,
                before: *before,
                after: *after,
            },
        }
    }
}

impl ViewportPlacement {
    pub fn new(rect: Rect, viewport: Size) -> (r: Self)
        ensures
            r@ == ViewportView::fresh(rect, viewport),
    {
        ViewportPlacement {
            rect,
            normalized_center: NormalizedPoint::from_rect(rect, viewport),
            output_rects: TextMap::new(),
        }
    }

    /// Remembers the rectangle for an output of the given size.
    pub fn store_for_output(&mut self, output: &String, viewport: Size)
        ensures
            final(self)@ == old(self)@.stored(output@, viewport),
    {
        self.normalized_center = NormalizedPoint::from_rect(self.rect, viewport);
        self.output_rects.insert(output, self.rect);
    }

    fn put_in_proportion(&mut self, size: Size)
        ensures
            final(self)@ == old(self)@.proportioned(size),
    {
        let center: Point = self.normalized_center.center_in(size);
        self.rect = clamp_to_viewport(Rect::centered_at(center, self.rect.size), size);
    }

    /// Takes the place from one output to another.
    pub fn migrate(&mut self, source: &Option<(String, Size)>, key: &String, size: Size)
        ensures
            final(self)@ == old(self)@.migrated(source_of(*source), key@, size),
    {
        match source {
            Some((source_key, source_size)) => self.store_for_output(source_key, *source_size),
            None => {},
        }
        match self.output_rects.get(key) {
            Some(rect) => {
                self.rect = clamp_to_viewport(rect, size);
            },
            None => self.put_in_proportion(size),
        }
        self.store_for_output(key, size);
    }

    /// Adapts the place to a new size of its output.
    pub fn remap(&mut self, key: &String, before: Size, after: Size)
        ensures
            final(self)@ == old(self)@.remapped(key@, before, after),
    {
        self.store_for_output(key, before);
        self.put_in_proportion(after);
        self.store_for_output(key, after);
    }

    pub fn change(&mut self, change: &ViewportChange)
        ensures
            final(self)@ == old(self)@.changed(change@),
    {
        match change {
            ViewportChange::Store { key, size } => self.store_for_output(key, *size),
            ViewportChange::Migrate { source, key, size } => self.migrate(source, key, *size),
            ViewportChange::Remap { key, before, after } => self.remap(key, *before, *after),
        }
    }
}

/// A place that goes to another output and comes back has the rectangle that it left, where
/// that rectangle fits the output.
pub proof fn migration_returns(
    place: ViewportView,
    home: Seq<char>,
    home_size: Size,
    away: Seq<char>,
    away_size: Size,
)
    requires
        home != away,
        clamped_rect(place.rect, home_size) == place.rect,
    ensures
        place.migrated(Some((home, home_size)), away, away_size).migrated(
            Some((away, away_size)),
            home,
            home_size,
        ).rect == place.rect,
{
}

} // verus!
