use astera::geometry::{Point, Rect, Size};
use astera::viewport::NormalizedPoint;

#[test]
fn conflict_respects_gap_and_touching_boundary() {
    let left = Rect::new(0, 0, 100, 100);
    assert!(!left.conflicts(Rect::new(100, 0, 50, 50), 0));
    assert!(left.conflicts(Rect::new(100, 0, 50, 50), 1));
    assert!(!left.conflicts(Rect::new(0, 101, 50, 50), 1));
}

#[test]
fn centered_and_translated_rect_preserve_size() {
    let rect = Rect::centered_at(Point::new(50, 40), Size::new(21, 11));
    assert_eq!(rect, Rect::new(40, 35, 21, 11));
    assert_eq!(rect.center(), Point::new(50, 40));
    assert_eq!(rect.translated(-10, 12), Rect::new(-10, 12, 21, 11));
    assert!(Size::new(1, 1).is_valid());
    assert!(!Size::new(0, 1).is_valid());
}

#[test]
fn centers_come_back_from_their_millionths() {
    for (width, height) in [(1, 1), (3, 7), (1920, 1080), (99_999, 100_000)] {
        let viewport = Size::new(width, height);
        for step in 0..=50 {
            let center = Point { x: width * step / 50, y: height * (50 - step) / 50 };
            let rect = Rect::centered_at(center, Size::new(2, 2));
            assert_eq!(rect.center(), center);
            assert_eq!(NormalizedPoint::from_rect(rect, viewport).center_in(viewport), center);
        }
    }
}

#[test]
fn windows_outside_the_viewport_stay_within_the_millionths() {
    let viewport = Size::new(1920, 1080);
    let far = Rect::new(5_000, -3_000, 100, 100);
    assert_eq!(
        NormalizedPoint::from_rect(far, viewport),
        NormalizedPoint { x_millionths: 1_000_000, y_millionths: 0 }
    );
    let half = Rect::new(910, 490, 100, 100);
    assert_eq!(
        NormalizedPoint::from_rect(half, viewport),
        NormalizedPoint { x_millionths: 500_000, y_millionths: 500_000 }
    );
}
